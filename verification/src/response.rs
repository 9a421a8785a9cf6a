//! The envelope that every answer of the service is wrapped in, and the
//! errors of the application with the status each one is answered with.

use vstd::prelude::*;
use vstd::string::StringExecFns;

verus! {

/// Status of an answer that succeeded.
pub const STATUS_OK: u16 = 200;

/// Status of an answer to a request that is not acceptable as it stands.
pub const STATUS_BAD_REQUEST: u16 = 400;

/// Status of an answer to a request that is not authenticated.
pub const STATUS_UNAUTHORIZED: u16 = 401;

/// Status of an answer about something that does not exist.
pub const STATUS_NOT_FOUND: u16 = 404;

/// Status of an answer after a failure on the server's side.
pub const STATUS_INTERNAL_SERVER_ERROR: u16 = 500;

/// Status of an answer while the storage cannot be reached.
pub const STATUS_SERVICE_UNAVAILABLE: u16 = 503;

/// The envelope of an answer: a message, the data if there is any, and
/// whether the request succeeded.
#[derive(Debug)]
pub struct Resp<T> {
    pub msg: String,
    pub data: Option<T>,
    pub success: bool,
}

impl<T> Resp<T> {
    /// The answer to a request that succeeded, with status 200.
    pub fn success(msg: &str, data: Option<T>) -> (r: (u16, Resp<T>))
        ensures
            r.0 == STATUS_OK,
            r.1.msg@ == msg@,
            r.1.data == data,
            r.1.success,
    {
        (STATUS_OK, Resp { msg: String::from_str(msg), data, success: true })
    }

    /// The envelope of an answer to a request that failed: no data.
    pub fn error(msg: &str) -> (r: Resp<T>)
        ensures
            r.msg@ == msg@,
            r.data is None,
            !r.success,
    {
        Resp { msg: String::from_str(msg), data: None, success: false }
    }
}

/// What can go wrong while a request is served.
#[derive(Debug)]
pub enum AppError {
    /// The storage failed.
    Database(String),
    /// The request is not authenticated.
    Auth(String),
    /// The request is not acceptable as it stands.
    Validation(String),
    /// Anything else that failed on the server's side.
    Internal(String),
}

/// The result of a step that may fail with an [`AppError`].
pub type AppResult<T> = Result<T, AppError>;

impl AppError {
    /// A storage failure with the given message.
    pub fn database(s: &str) -> (e: AppError)
        ensures
            e matches AppError::Database(m) && m@ == s@,
    {
        AppError::Database(String::from_str(s))
    }

    /// An authentication failure with the given message.
    pub fn auth(s: &str) -> (e: AppError)
        ensures
            e matches AppError::Auth(m) && m@ == s@,
    {
        AppError::Auth(String::from_str(s))
    }

    /// A validation failure with the given message.
    pub fn validation(s: &str) -> (e: AppError)
        ensures
            e matches AppError::Validation(m) && m@ == s@,
    {
        AppError::Validation(String::from_str(s))
    }

    /// An internal failure with the given message.
    pub fn internal(s: &str) -> (e: AppError)
        ensures
            e matches AppError::Internal(m) && m@ == s@,
    {
        AppError::Internal(String::from_str(s))
    }

    /// The message the error was made with.
    pub open spec fn message(self) -> Seq<char> {
        match self {
            AppError::Database(m) => m@,
            AppError::Auth(m) => m@,
            AppError::Validation(m) => m@,
            AppError::Internal(m) => m@,
        }
    }

    /// The status the error is answered with.
    pub open spec fn status(self) -> u16 {
        match self {
            AppError::Database(_) => STATUS_INTERNAL_SERVER_ERROR,
            AppError::Auth(_) => STATUS_UNAUTHORIZED,
            AppError::Validation(_) => STATUS_BAD_REQUEST,
            AppError::Internal(_) => STATUS_INTERNAL_SERVER_ERROR,
        }
    }

    /// The words that name the kind of the error.
    pub open spec fn kind_text(self) -> Seq<char> {
        match self {
            AppError::Database(_) => "Database error: "@,
            AppError::Auth(_) => "Authentication error: "@,
            AppError::Validation(_) => "Validation error: "@,
            AppError::Internal(_) => "Internal server error: "@,
        }
    }

    /// The status the error is answered with: 401 for `Auth`, 400 for
    /// `Validation`, 500 for the other two.
    pub fn status_code(&self) -> (code: u16)
        ensures
            code == self.status(),
    {
        match self {
            AppError::Database(_) => STATUS_INTERNAL_SERVER_ERROR,
            AppError::Auth(_) => STATUS_UNAUTHORIZED,
            AppError::Validation(_) => STATUS_BAD_REQUEST,
            AppError::Internal(_) => STATUS_INTERNAL_SERVER_ERROR,
        }
    }

    /// The error as a line of text: its kind, then its message.
    pub fn to_string(&self) -> (text: String)
        ensures
            text@ == self.kind_text() + self.message(),
    {
        match self {
            AppError::Database(m) => String::from_str("Database error: ").concat(m.as_str()),
            AppError::Auth(m) => String::from_str("Authentication error: ").concat(m.as_str()),
            AppError::Validation(m) => String::from_str("Validation error: ").concat(m.as_str()),
            AppError::Internal(m) => String::from_str("Internal server error: ").concat(
                m.as_str(),
            ),
        }
    }

    /// The answer to the request that met the error: the error's status
    /// and an envelope that carries its message and no data.
    pub fn into_response(self) -> (r: (u16, Resp<()>))
        ensures
            r.0 == self.status(),
            r.1.msg@ == self.message(),
            r.1.data is None,
            !r.1.success,
    {
        let status = self.status_code();
        let msg = match self {
            AppError::Database(m) => m,
            AppError::Auth(m) => m,
            AppError::Validation(m) => m,
            AppError::Internal(m) => m,
        };
        (status, Resp { msg, data: None, success: false })
    }
}

} // verus!

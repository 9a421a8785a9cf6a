//! Chat messages as requests carry them, and the pages they are listed
//! on.

use crate::response::STATUS_BAD_REQUEST;
use crate::text::{blank, is_blank};
use vstd::prelude::*;
use vstd::string::StringExecFns;

verus! {

/// Messages listed on one page.
pub const PAGE_LIMIT: i64 = 100;

/// The body of a request that posts a message.
#[derive(Debug, Clone)]
pub struct CreateChatRequest {
    pub message: String,
    pub attachment: Option<String>,
    pub reply_id: Option<i64>,
}

/// A posted message as the storage gives it back.
#[derive(Debug, Clone)]
pub struct CreateChatResponse {
    pub id: i64,
    pub message: String,
    pub attachment: Option<String>,
    pub user_id: i64,
    pub reply_id: Option<i64>,
    pub created_at: String,
}

/// The body of a request that replies to a message.
#[derive(Debug, Clone)]
pub struct ReplyChatRequest {
    pub message: String,
    pub attachment: Option<String>,
}

/// A reply as the storage gives it back.
#[derive(Debug, Clone)]
pub struct ReplyChatResponse {
    pub id: i64,
    pub message: String,
    pub attachment: Option<String>,
    pub user_id: i64,
    pub reply_id: i64,
    pub created_at: String,
}

/// Checks the text of a message before it is stored: a message that holds
/// nothing but white space is refused with status 400 and
/// `Message cannot be empty`.
pub fn check_message(message: &str) -> (r: Result<(), (u16, &'static str)>)
    ensures
        match r {
            Ok(()) => !blank(message@),
            Err(refusal) => blank(message@) && refusal.0 == STATUS_BAD_REQUEST && refusal.1@
                == "Message cannot be empty"@,
        },
{
    if is_blank(message) {
        Err((STATUS_BAD_REQUEST, "Message cannot be empty"))
    } else {
        Ok(())
    }
}

impl CreateChatRequest {
    /// Checks the message of the request; see [`check_message`].
    pub fn validate(&self) -> (r: Result<(), (u16, &'static str)>)
        ensures
            match r {
                Ok(()) => !blank(self.message@),
                Err(refusal) => blank(self.message@) && refusal.0 == STATUS_BAD_REQUEST
                    && refusal.1@ == "Message cannot be empty"@,
            },
    {
        check_message(self.message.as_str())
    }
}

impl ReplyChatRequest {
    /// Checks the message of the request; see [`check_message`].
    pub fn validate(&self) -> (r: Result<(), (u16, &'static str)>)
        ensures
            match r {
                Ok(()) => !blank(self.message@),
                Err(refusal) => blank(self.message@) && refusal.0 == STATUS_BAD_REQUEST
                    && refusal.1@ == "Message cannot be empty"@,
            },
    {
        check_message(self.message.as_str())
    }
}

/// The page that is served for a requested page number: the first page
/// for any number below 1.
pub open spec fn served_page(page: i64) -> i64 {
    if page < 1 {
        1
    } else {
        page
    }
}

/// The page that is served for the requested page number and the number
/// of messages to skip before it, or `None` where that number does not
/// fit in 64 bits.
pub fn page_window(page: i64) -> (r: Option<(i64, i64)>)
    ensures
        match r {
            Some((served, offset)) => served == served_page(page) && offset == (served - 1)
                * PAGE_LIMIT,
            None => (served_page(page) - 1) * PAGE_LIMIT > i64::MAX,
        },
{
    let served: i64 = if page < 1 {
        1
    } else {
        page
    };
    match (served - 1).checked_mul(PAGE_LIMIT) {
        Some(offset) => Some((served, offset)),
        None => None,
    }
}

/// What the others in a chat are told when `nickname` joins.
pub fn joined_notice(nickname: &str) -> (notice: String)
    ensures
        notice@ == nickname@ + " joined the chat"@,
{
    String::from_str(nickname).concat(" joined the chat")
}

/// What the others in a chat are told when `nickname` leaves.
pub fn left_notice(nickname: &str) -> (notice: String)
    ensures
        notice@ == nickname@ + " left the chat"@,
{
    String::from_str(nickname).concat(" left the chat")
}

} // verus!

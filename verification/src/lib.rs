//! Token-based authentication and session lifecycle for a chat service.
//!
//! The core of the crate:
//!
//! - [`signer`]: the keyed message authentication code and its secret;
//! - [`token`]: signed tokens as compact strings, built and checked;
//! - [`session`]: the access and refresh token pair of a session;
//! - [`store`]: the one refresh token the server recognizes per subject;
//! - [`gate`]: the stage that lets a request pass only with a valid token.
//!
//! Around it stand what the requests of the service are answered with
//! ([`login`], [`users`], [`chats`], [`response`], [`pagination`],
//! [`avatar`]), an in-memory chat service ([`compose`]), and the pieces the
//! token format is made of ([`claims`], [`decimal`], [`escape`], [`json`],
//! [`base64url`], [`split`], [`bytes`], [`text`]).
//!
//! Reading the environment, the storage and the network is left to the
//! program around the library. Functions that read the clock or draw
//! random values say in their contracts what holds whatever those were,
//! and each stands beside a function that takes the value as an argument.

pub mod avatar;
pub mod base64url;
pub mod bytes;
pub mod chats;
pub mod claims;
mod clock;
pub mod compose;
pub mod decimal;
pub mod escape;
pub mod gate;
pub mod json;
pub mod login;
pub mod pagination;
pub mod password;
pub mod response;
mod salt;
pub mod session;
pub mod signer;
pub mod split;
pub mod store;
pub mod text;
pub mod token;
pub mod users;

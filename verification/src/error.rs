//! Errors that can occur in the bot.

use vstd::prelude::*;

verus! {

#[verifier::external_type_specification]
#[verifier::external_body]
pub struct ExReqwestError(reqwest::Error);

#[verifier::external_type_specification]
#[verifier::external_body]
pub struct ExJsonError(serde_json::Error);

#[verifier::external_type_specification]
#[verifier::external_body]
pub struct ExIoError(std::io::Error);

/// Errors that can occur in the SDK.
#[derive(Debug)]
pub enum WeChatBotError {
    /// The API answered with an error.
    Api { message: String, http_status: u16, errcode: i32 },
    /// Not logged in, or the login failed.
    Auth(String),
    /// No conversation token is known for the user.
    NoContext(String),
    /// A media upload or download failed.
    Media(String),
    /// The HTTP transport failed.
    Transport(reqwest::Error),
    /// A JSON document could not be read or written.
    Json(serde_json::Error),
    /// A file could not be read or written.
    Io(std::io::Error),
    /// Any other failure.
    Other(String),
}

/// The API's error code for an expired session.
pub const SESSION_EXPIRED_ERRCODE: i32 = -14i32;

impl WeChatBotError {
    /// Returns true if this is a session-expired error (errcode -14).
    pub fn is_session_expired(&self) -> (b: bool)
        ensures
            b == (self matches WeChatBotError::Api { errcode, .. } && errcode
                == SESSION_EXPIRED_ERRCODE),
    {
        match self {
            WeChatBotError::Api { errcode, .. } => *errcode == SESSION_EXPIRED_ERRCODE,
            _ => false,
        }
    }
}

} // verus!

//! The answers that the service gives, apart from their encoding.

use vstd::prelude::*;

verus! {

/// An answer to a request: an HTTP status code, and for the body a status
/// word and a message.
#[derive(Debug, PartialEq, Eq)]
pub enum Reply {
    /// A notification was saved.
    Received,
    /// A notification could not be saved.
    SaveFailed,
    /// The request lacks the bearer token that the route asks for.
    Unauthorized,
    /// The request body could not be read as what the route expects; the
    /// message is the decoder's.
    BadBody(String),
    /// The offered key is the secret.
    KeyVerified,
    /// The offered key is not the secret.
    KeyRejected,
    /// The body offers no key.
    KeyMissing,
    /// The body offers a key that is not text.
    KeyMalformed,
    /// The record of an image is gone.
    Deleted,
    /// A record could not be deleted.
    DeleteFailed,
}

impl Reply {
    /// The HTTP status code of the answer.
    pub open spec fn spec_code(self) -> int {
        match self {
            Reply::Received | Reply::KeyVerified | Reply::Deleted => 200,
            Reply::BadBody(_) | Reply::KeyMissing | Reply::KeyMalformed => 400,
            Reply::Unauthorized | Reply::KeyRejected => 401,
            Reply::SaveFailed | Reply::DeleteFailed => 500,
        }
    }

    /// The status word of the body.
    pub open spec fn spec_status(self) -> Seq<char> {
        match self {
            Reply::Received => "received"@,
            Reply::KeyVerified | Reply::Deleted => "success"@,
            _ => "error"@,
        }
    }

    /// The message of the body.
    pub open spec fn spec_message(self) -> Seq<char> {
        match self {
            Reply::Received => "Webhook processed and saved successfully"@,
            Reply::SaveFailed => "Failed to save webhook to database"@,
            Reply::Unauthorized => "Invalid or missing API key"@,
            Reply::BadBody(message) => message@,
            Reply::KeyVerified => "API key verified"@,
            Reply::KeyRejected => "Invalid API key"@,
            Reply::KeyMissing => "Missing API key"@,
            Reply::KeyMalformed => "Invalid API key format"@,
            Reply::Deleted => "Image deleted successfully"@,
            Reply::DeleteFailed => "Failed to delete image from database"@,
        }
    }

    /// The HTTP status code of the answer.
    pub fn code(&self) -> (code: u16)
        ensures
            code == self.spec_code(),
    {
        match self {
            Reply::Received | Reply::KeyVerified | Reply::Deleted => 200,
            Reply::BadBody(_) | Reply::KeyMissing | Reply::KeyMalformed => 400,
            Reply::Unauthorized | Reply::KeyRejected => 401,
            Reply::SaveFailed | Reply::DeleteFailed => 500,
        }
    }

    /// The status word of the body.
    pub fn status(&self) -> (word: &'static str)
        ensures
            word@ == self.spec_status(),
    {
        match self {
            Reply::Received => "received",
            Reply::KeyVerified | Reply::Deleted => "success",
            _ => "error",
        }
    }

    /// The message of the body.
    pub fn message(&self) -> (text: &str)
        ensures
            text@ == self.spec_message(),
    {
        match self {
            Reply::Received => "Webhook processed and saved successfully",
            Reply::SaveFailed => "Failed to save webhook to database",
            Reply::Unauthorized => "Invalid or missing API key",
            Reply::BadBody(message) => message.as_str(),
            Reply::KeyVerified => "API key verified",
            Reply::KeyRejected => "Invalid API key",
            Reply::KeyMissing => "Missing API key",
            Reply::KeyMalformed => "Invalid API key format",
            Reply::Deleted => "Image deleted successfully",
            Reply::DeleteFailed => "Failed to delete image from database",
        }
    }
}

} // verus!

//! The errors and query of the HTTP front-end that relays files to and from
//! the service.

use vstd::prelude::*;
use vstd::string::*;

verus! {

/// What the front-end reports when a relay to the service fails.
#[derive(Debug, PartialEq, Eq)]
pub enum VideoError {
    /// The service could not take or give the file.
    InternalError { msg: String },
    /// The service does not have the file.
    NotFound { msg: String },
}

/// The query of the page that shows one video.
#[derive(Debug, PartialEq, Eq)]
pub struct Info {
    pub id: i32,
}

/// The text that describes an error whose detail is `msg`.
pub open spec fn internal_error_text(msg: Seq<char>) -> Seq<char> {
    "An internal error occurred. Err: "@ + msg + ". Please try again later"@
}

/// The text that describes a missing file whose detail is `msg`.
pub open spec fn not_found_text(msg: Seq<char>) -> Seq<char> {
    "Video file was not found. Err: "@ + msg
}

impl VideoError {
    /// The HTTP status of the response: 500 for an internal error, 404 for a missing file.
    pub fn status_code(&self) -> (r: u16)
        ensures
            r == match self {
                VideoError::InternalError { .. } => 500u16,
                VideoError::NotFound { .. } => 404u16,
            },
    {
        match self {
            VideoError::InternalError { .. } => 500,
            VideoError::NotFound { .. } => 404,
        }
    }

    /// The detail that the response body carries.
    pub fn detail(&self) -> (r: &String)
        ensures
            r@ == match self {
                VideoError::InternalError { msg } => msg@,
                VideoError::NotFound { msg } => msg@,
            },
    {
        match self {
            VideoError::InternalError { msg } => msg,
            VideoError::NotFound { msg } => msg,
        }
    }

    /// The text that describes the error.
    pub fn message(&self) -> (r: String)
        ensures
            r@ == match self {
                VideoError::InternalError { msg } => internal_error_text(msg@),
                VideoError::NotFound { msg } => not_found_text(msg@),
            },
    {
        match self {
            VideoError::InternalError { msg } => String::from_str(
                "An internal error occurred. Err: ",
            ).concat(msg.as_str()).concat(". Please try again later"),
            VideoError::NotFound { msg } => String::from_str(
                "Video file was not found. Err: ",
            ).concat(msg.as_str()),
        }
    }
}

} // verus!

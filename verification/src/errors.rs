//! The errors that the client reports.

use crate::text::{decimal, push_decimal};
use vstd::prelude::*;

verus! {

/// Why an operation failed.
#[derive(Debug, PartialEq, Eq)]
pub enum DetaError {
    /// The service answered 400.
    BadRequest,
    /// The service answered 401.
    Unauthorized,
    /// The service answered 404.
    NotFound,
    /// The service answered 409.
    Conflict,
    /// The service answered 413.
    PayloadTooLarge,
    /// The service answered with another status that is no success.
    HTTPError { status: u16, msg: String },
    /// The connection failed.
    TransportError,
    /// The caller asked for something that is refused before any request
    /// is made.
    PayloadError { msg: String },
    /// Reading a response failed.
    IOError(String),
    /// A response body was not the JSON that was expected.
    JSONError(String),
}

/// An error, with the text of its strings.
pub enum Failure {
    BadRequest,
    Unauthorized,
    NotFound,
    Conflict,
    PayloadTooLarge,
    HTTPError { status: u16, msg: Seq<char> },
    TransportError,
    PayloadError { msg: Seq<char> },
    IOError(Seq<char>),
    JSONError(Seq<char>),
}

impl View for DetaError {
    type V = Failure;

    open spec fn view(&self) -> Failure {
        match self {
            DetaError::BadRequest => Failure::BadRequest,
            DetaError::Unauthorized => Failure::Unauthorized,
            DetaError::NotFound => Failure::NotFound,
            DetaError::Conflict => Failure::Conflict,
            DetaError::PayloadTooLarge => Failure::PayloadTooLarge,
            DetaError::HTTPError { status, msg } => Failure::HTTPError {
                status: *status,
                msg: msg@,
            },
            DetaError::TransportError => Failure::TransportError,
            DetaError::PayloadError { msg } => Failure::PayloadError { msg: msg@ },
            DetaError::IOError(msg) => Failure::IOError(msg@),
            DetaError::JSONError(msg) => Failure::JSONError(msg@),
        }
    }
}

/// The error for a response status that is no success: the five statuses
/// with a name of their own, and the status with its text for the rest.
pub open spec fn status_failure(status: u16, text: Seq<char>) -> Failure {
    if status == 400 {
        Failure::BadRequest
    } else if status == 401 {
        Failure::Unauthorized
    } else if status == 404 {
        Failure::NotFound
    } else if status == 409 {
        Failure::Conflict
    } else if status == 413 {
        Failure::PayloadTooLarge
    } else {
        Failure::HTTPError { status, msg: text }
    }
}

/// The message of an error.
pub open spec fn failure_message(failure: Failure) -> Seq<char> {
    match failure {
        Failure::BadRequest => "400 bad request"@,
        Failure::Unauthorized => "401 unauthorized"@,
        Failure::NotFound => "404 not found"@,
        Failure::Conflict => "409 conflict"@,
        Failure::PayloadTooLarge => "413 payload too large"@,
        Failure::HTTPError { status, msg } => "HTTP error: "@ + decimal(status as nat) + " "@ + msg,
        Failure::TransportError => "transport error"@,
        Failure::PayloadError { msg } => "Custom error: "@ + msg,
        Failure::IOError(_) => "IO error"@,
        Failure::JSONError(_) => "JSON error"@,
    }
}

impl DetaError {
    /// The error for the status and status text of a response that is no
    /// success.
    pub fn from_status(status: u16, text: &str) -> (e: DetaError)
        ensures
            e@ == status_failure(status, text@),
    {
        if status == 400 {
            DetaError::BadRequest
        } else if status == 401 {
            DetaError::Unauthorized
        } else if status == 404 {
            DetaError::NotFound
        } else if status == 409 {
            DetaError::Conflict
        } else if status == 413 {
            DetaError::PayloadTooLarge
        } else {
            DetaError::HTTPError { status, msg: String::from_str(text) }
        }
    }

    /// The error for a request that is refused before it is sent.
    pub fn payload(msg: &str) -> (e: DetaError)
        ensures
            e@ == (Failure::PayloadError { msg: msg@ }),
    {
        DetaError::PayloadError { msg: String::from_str(msg) }
    }

    /// The message of this error.
    pub fn to_string(&self) -> (text: String)
        ensures
            text@ == failure_message(self@),
    {
        match self {
            DetaError::BadRequest => String::from_str("400 bad request"),
            DetaError::Unauthorized => String::from_str("401 unauthorized"),
            DetaError::NotFound => String::from_str("404 not found"),
            DetaError::Conflict => String::from_str("409 conflict"),
            DetaError::PayloadTooLarge => String::from_str("413 payload too large"),
            DetaError::HTTPError { status, msg } => {
                let mut text = String::from_str("HTTP error: ");
                push_decimal(&mut text, *status as u64);
                text.append(" ");
                text.append(msg.as_str());
                text
            },
            DetaError::TransportError => String::from_str("transport error"),
            DetaError::PayloadError { msg } => {
                let mut text = String::from_str("Custom error: ");
                text.append(msg.as_str());
                text
            },
            DetaError::IOError(_) => String::from_str("IO error"),
            DetaError::JSONError(_) => String::from_str("JSON error"),
        }
    }
}

} // verus!

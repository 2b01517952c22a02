//! Errors that know their HTTP status.

use vstd::prelude::*;
use vstd::string::StringExecFns;
use crate::text::decimal;
use crate::text::decimal_string;
use crate::text::join2;
use crate::text::join3;

verus! {

/// The result of an operation that may fail with an `Error`.
pub type Result<T> = std::result::Result<T, Error>;

/// An error raised while a request is handled.
#[derive(Debug)]
pub enum Error {
    /// A status code, with an optional message.
    Status(u16, Option<String>),
    /// A JSON value could not be written or read; holds the cause.
    Json(String),
    /// The HTTP transport failed; holds what the transport reported.
    Hyper(String),
    /// An I/O operation failed; holds what the system reported.
    Io(String),
    /// Any other failure, described by its message.
    Custom(String),
}

/// What an error holds, with its texts as sequences of characters.
pub ghost enum ErrorView {
    Status(u16, Option<Seq<char>>),
    Json(Seq<char>),
    Hyper(Seq<char>),
    Io(Seq<char>),
    Custom(Seq<char>),
}

impl View for Error {
    type V = ErrorView;

    open spec fn view(&self) -> ErrorView {
        match *self {
            Error::Status(code, Some(msg)) => ErrorView::Status(code, Some(msg@)),
            Error::Status(code, None) => ErrorView::Status(code, None),
            Error::Json(cause) => ErrorView::Json(cause@),
            Error::Hyper(cause) => ErrorView::Hyper(cause@),
            Error::Io(cause) => ErrorView::Io(cause@),
            Error::Custom(msg) => ErrorView::Custom(msg@),
        }
    }
}

impl Error {
    /// The text of the error, as it is shown to a person.
    pub open spec fn spec_message(self) -> Seq<char> {
        match self {
            Error::Status(code, Some(msg)) => "HTTP "@ + decimal(code as nat) + ": "@ + msg@,
            Error::Status(code, None) => "HTTP "@ + decimal(code as nat),
            Error::Json(e) => "JSON error: "@ + e@,
            Error::Hyper(e) => "HTTP error: "@ + e@,
            Error::Io(e) => "IO error: "@ + e@,
            Error::Custom(msg) => msg@,
        }
    }

    /// The status code that a response for this error carries before it is
    /// checked for validity.
    pub open spec fn spec_code(self) -> u16 {
        match self {
            Error::Status(code, _) => code,
            Error::Json(_) => 400,
            _ => 500,
        }
    }

    /// 400 Bad Request.
    pub fn bad_request(msg: &str) -> (e: Error)
        ensures
            e@ == ErrorView::Status(400, Some(msg@)),
    {
        Error::Status(400, Some(String::from_str(msg)))
    }

    /// 401 Unauthorized.
    pub fn unauthorized(msg: &str) -> (e: Error)
        ensures
            e@ == ErrorView::Status(401, Some(msg@)),
    {
        Error::Status(401, Some(String::from_str(msg)))
    }

    /// 403 Forbidden.
    pub fn forbidden(msg: &str) -> (e: Error)
        ensures
            e@ == ErrorView::Status(403, Some(msg@)),
    {
        Error::Status(403, Some(String::from_str(msg)))
    }

    /// 404 Not Found.
    pub fn not_found(msg: &str) -> (e: Error)
        ensures
            e@ == ErrorView::Status(404, Some(msg@)),
    {
        Error::Status(404, Some(String::from_str(msg)))
    }

    /// 413 Payload Too Large.
    pub fn payload_too_large(msg: &str) -> (e: Error)
        ensures
            e@ == ErrorView::Status(413, Some(msg@)),
    {
        Error::Status(413, Some(String::from_str(msg)))
    }

    /// 422 Unprocessable Entity.
    pub fn unprocessable(msg: &str) -> (e: Error)
        ensures
            e@ == ErrorView::Status(422, Some(msg@)),
    {
        Error::Status(422, Some(String::from_str(msg)))
    }

    /// 500 Internal Server Error.
    pub fn internal(msg: &str) -> (e: Error)
        ensures
            e@ == ErrorView::Status(500, Some(msg@)),
    {
        Error::Status(500, Some(String::from_str(msg)))
    }

    /// A bare status code without a message.
    pub fn status(code: u16) -> (e: Error)
        ensures
            e@ == ErrorView::Status(code, None),
    {
        Error::Status(code, None)
    }

    /// An error that carries only a message.
    pub fn custom(msg: &str) -> (e: Error)
        ensures
            e@ == ErrorView::Custom(msg@),
    {
        Error::Custom(String::from_str(msg))
    }

    /// The text of the error.
    pub fn message(&self) -> (s: String)
        ensures
            s@ == self.spec_message(),
    {
        match self {
            Error::Status(code, Some(msg)) => {
                let digits = decimal_string(*code as u64);
                let head = join3("HTTP ", digits.as_str(), ": ");
                head.concat(msg.as_str())
            },
            Error::Status(code, None) => {
                let digits = decimal_string(*code as u64);
                join2("HTTP ", digits.as_str())
            },
            Error::Json(e) => join2("JSON error: ", e.as_str()),
            Error::Hyper(e) => join2("HTTP error: ", e.as_str()),
            Error::Io(e) => join2("IO error: ", e.as_str()),
            Error::Custom(msg) => msg.clone(),
        }
    }
}

impl From<String> for Error {
    fn from(msg: String) -> (e: Error) {
        Error::Custom(msg)
    }
}

impl vstd::std_specs::convert::FromSpecImpl<String> for Error {
    open spec fn obeys_from_spec() -> bool {
        true
    }

    open spec fn from_spec(msg: String) -> Error {
        Error::Custom(msg)
    }
}

} // verus!

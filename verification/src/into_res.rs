//! Turning handler results into responses.

use std::borrow::Cow;
use vstd::prelude::*;
use vstd::utf8::encode_utf8;
use crate::error::Error;
use crate::error::ErrorView;
use crate::headers::lemma_lookup_empty;
use crate::headers::with_entry;
use crate::res::Res;
use crate::res::ResView;
use crate::res::checked_status;
use crate::res::content_type_name;
use crate::res::html_type;
use crate::res::text_type;
use crate::text::decimal;
use crate::text::decimal_string;
use crate::text::join2;
use crate::text::join3;

pub mod status;

verus! {

/// A text response with the given status.
pub open spec fn text_response(status: u16, body: Seq<char>) -> ResView {
    ResView {
        status,
        headers: with_entry(Seq::empty(), content_type_name(), text_type()),
        body: encode_utf8(body),
    }
}

/// An HTML response with status 200.
pub open spec fn html_response(body: Seq<char>) -> ResView {
    ResView {
        status: 200,
        headers: with_entry(Seq::empty(), content_type_name(), html_type()),
        body: encode_utf8(body),
    }
}

/// A response that has a status and nothing else.
pub open spec fn bare_response(status: u16) -> ResView {
    ResView { status, headers: Seq::empty(), body: Seq::empty() }
}

/// The response that stands for an error.
pub open spec fn error_response(e: ErrorView) -> ResView {
    match e {
        ErrorView::Status(code, Some(msg)) => text_response(
            checked_status(code),
            decimal(code as nat) + " "@ + msg,
        ),
        ErrorView::Status(code, None) => bare_response(checked_status(code)),
        ErrorView::Json(cause) => text_response(400, "JSON error: "@ + cause),
        ErrorView::Hyper(cause) => text_response(500, "HTTP error: "@ + cause),
        ErrorView::Io(cause) => text_response(500, "IO error: "@ + cause),
        ErrorView::Custom(msg) => text_response(500, msg),
    }
}

/// A value that can stand as the response to a request.
pub trait IntoRes: Sized {
    /// The response that the value turns into.
    spec fn response(self) -> ResView;

    /// Turns the value into its response.
    fn into_res(self) -> (r: Res)
        ensures
            r@ == self.response(),
    ;
}

impl IntoRes for Res {
    open spec fn response(self) -> ResView {
        self@
    }

    fn into_res(self) -> (r: Res) {
        self
    }
}

impl IntoRes for String {
    open spec fn response(self) -> ResView {
        text_response(200, self@)
    }

    fn into_res(self) -> (r: Res) {
        Res::text(self.as_str())
    }
}

impl IntoRes for &'static str {
    open spec fn response(self) -> ResView {
        text_response(200, self@)
    }

    fn into_res(self) -> (r: Res) {
        Res::text(self)
    }
}

impl IntoRes for () {
    open spec fn response(self) -> ResView {
        bare_response(204)
    }

    fn into_res(self) -> (r: Res) {
        Res::status(204)
    }
}

impl<T: IntoRes> IntoRes for Result<T, Error> {
    open spec fn response(self) -> ResView {
        match self {
            Ok(value) => value.response(),
            Err(e) => error_response(e@),
        }
    }

    fn into_res(self) -> (r: Res) {
        match self {
            Ok(value) => value.into_res(),
            Err(e) => e.into_res(),
        }
    }
}

impl IntoRes for Error {
    open spec fn response(self) -> ResView {
        error_response(self@)
    }

    fn into_res(self) -> (r: Res) {
        proof {
            lemma_lookup_empty(content_type_name());
        }
        match self {
            Error::Status(code, Some(msg)) => {
                let digits = decimal_string(code as u64);
                let body = join3(digits.as_str(), " ", msg.as_str());
                Res::builder().status(code).text(body.as_str())
            },
            Error::Status(code, None) => Res::status(code),
            Error::Json(cause) => {
                let body = join2("JSON error: ", cause.as_str());
                Res::builder().status(400).text(body.as_str())
            },
            Error::Hyper(cause) => {
                let body = join2("HTTP error: ", cause.as_str());
                Res::builder().status(500).text(body.as_str())
            },
            Error::Io(cause) => {
                let body = join2("IO error: ", cause.as_str());
                Res::builder().status(500).text(body.as_str())
            },
            Error::Custom(msg) => Res::builder().status(500).text(msg.as_str()),
        }
    }
}

/// An HTML page, borrowed or owned.
pub struct Html(pub Cow<'static, str>);

impl Html {
    /// A page from a static string, which is not copied.
    pub fn from_static(html: &'static str) -> (h: Html)
        ensures
            h.0 == Cow::<'static, str>::Borrowed(html),
    {
        Html(Cow::Borrowed(html))
    }

    /// A page from an owned string.
    pub fn from_string(html: String) -> (h: Html)
        ensures
            h.0 == Cow::<'static, str>::Owned(html),
    {
        Html(Cow::Owned(html))
    }
}

impl IntoRes for Html {
    open spec fn response(self) -> ResView {
        html_response(self.0@)
    }

    fn into_res(self) -> (r: Res) {
        match self.0 {
            Cow::Borrowed(s) => Res::html(s),
            Cow::Owned(s) => Res::html(s.as_str()),
        }
    }
}

impl IntoRes for &Html {
    open spec fn response(self) -> ResView {
        html_response(self.0@)
    }

    fn into_res(self) -> (r: Res) {
        match &self.0 {
            Cow::Borrowed(s) => Res::html(s),
            Cow::Owned(s) => Res::html(s.as_str()),
        }
    }
}

impl From<String> for Html {
    fn from(html: String) -> (h: Html) {
        Html(Cow::Owned(html))
    }
}

impl vstd::std_specs::convert::FromSpecImpl<String> for Html {
    open spec fn obeys_from_spec() -> bool {
        true
    }

    open spec fn from_spec(html: String) -> Html {
        Html(Cow::Owned(html))
    }
}

impl From<&'static str> for Html {
    fn from(html: &'static str) -> (h: Html) {
        Html(Cow::Borrowed(html))
    }
}

impl vstd::std_specs::convert::FromSpecImpl<&'static str> for Html {
    open spec fn obeys_from_spec() -> bool {
        true
    }

    open spec fn from_spec(html: &'static str) -> Html {
        Html(Cow::Borrowed(html))
    }
}

} // verus!

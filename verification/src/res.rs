//! Responses and their builder.

use vstd::prelude::*;
use vstd::string::StrSliceExecFns;
use vstd::string::StringSliceAdditionalSpecFns;
use vstd::utf8::encode_utf8;
use crate::headers::HeaderList;
use crate::headers::inserted;
use crate::headers::lookup;
use crate::headers::spec_status_ok;
use crate::headers::status_ok;
use crate::headers::with_entry;
use crate::text::join3;

verus! {

/// The canonical name of the content type header.
pub open spec fn content_type_name() -> Seq<char> {
    "content-type"@
}

/// The content type of plain text.
pub open spec fn text_type() -> Seq<char> {
    "text/plain; charset=utf-8"@
}

/// The content type of HTML.
pub open spec fn html_type() -> Seq<char> {
    "text/html; charset=utf-8"@
}

/// The content type of JSON.
pub open spec fn json_type() -> Seq<char> {
    "application/json"@
}

/// The code that a response gets when `code` is asked for: the code itself
/// where it is a status code, else 500.
pub open spec fn checked_status(code: u16) -> u16 {
    if spec_status_ok(code) {
        code
    } else {
        500
    }
}

/// The headers of a built response: the content type is added unless one is
/// already there.
pub open spec fn with_default_type(
    h: Seq<(Seq<char>, Seq<char>)>,
    content_type: Seq<char>,
) -> Seq<(Seq<char>, Seq<char>)> {
    if lookup(h, content_type_name()) is Some {
        h
    } else {
        with_entry(h, content_type_name(), content_type)
    }
}

/// The body that reports a failed JSON serialization.
pub open spec fn json_failure_body(cause: Seq<char>) -> Seq<char> {
    "{\"error\": \"JSON serialization failed: "@ + cause + "\"}"@
}

/// What a response is: a status code, headers and body bytes.
pub ghost struct ResView {
    pub status: u16,
    pub headers: Seq<(Seq<char>, Seq<char>)>,
    pub body: Seq<u8>,
}

/// An HTTP response.
#[derive(Debug)]
pub struct Res {
    status: u16,
    headers: HeaderList,
    body: Vec<u8>,
}

impl View for Res {
    type V = ResView;

    closed spec fn view(&self) -> ResView {
        ResView { status: self.status, headers: self.headers@, body: self.body@ }
    }
}

impl Res {
    /// An empty 200 response.
    pub fn new() -> (r: Res)
        ensures
            r@ == (ResView { status: 200, headers: Seq::empty(), body: Seq::empty() }),
    {
        Res { status: 200, headers: HeaderList::new(), body: Vec::new() }
    }

    /// A 200 response with a plain text body.
    pub fn text(body: &str) -> (r: Res)
        ensures
            r@ == (ResView {
                status: 200,
                headers: with_entry(Seq::empty(), content_type_name(), text_type()),
                body: encode_utf8(body@),
            }),
    {
        let mut headers = HeaderList::new();
        headers.put("content-type", "text/plain; charset=utf-8");
        Res { status: 200, headers, body: body.as_bytes_vec() }
    }

    /// A 200 response with an HTML body.
    pub fn html(body: &str) -> (r: Res)
        ensures
            r@ == (ResView {
                status: 200,
                headers: with_entry(Seq::empty(), content_type_name(), html_type()),
                body: encode_utf8(body@),
            }),
    {
        let mut headers = HeaderList::new();
        headers.put("content-type", "text/html; charset=utf-8");
        Res { status: 200, headers, body: body.as_bytes_vec() }
    }

    /// A JSON response from the outcome of a serialization: 200 with the
    /// bytes, or 500 with a JSON body that names the failure.
    pub fn json(serialized: Result<Vec<u8>, String>) -> (r: Res)
        ensures
            r@.headers == with_entry(Seq::empty(), content_type_name(), json_type()),
            match serialized {
                Ok(bytes) => r@.status == 200 && r@.body == bytes@,
                Err(cause) => r@.status == 500 && r@.body == encode_utf8(
                    json_failure_body(cause@),
                ),
            },
    {
        let mut headers = HeaderList::new();
        headers.put("content-type", "application/json");
        match serialized {
            Ok(bytes) => Res { status: 200, headers, body: bytes },
            Err(cause) => {
                let text = join3(
                    "{\"error\": \"JSON serialization failed: ",
                    cause.as_str(),
                    "\"}",
                );
                Res { status: 500, headers, body: text.as_str().as_bytes_vec() }
            },
        }
    }

    /// A response with only a status: `code` where it is a status code,
    /// else 500.
    pub fn status(code: u16) -> (r: Res)
        ensures
            r@ == (ResView {
                status: checked_status(code),
                headers: Seq::empty(),
                body: Seq::empty(),
            }),
    {
        let status = if status_ok(code) {
            code
        } else {
            500
        };
        Res { status, headers: HeaderList::new(), body: Vec::new() }
    }

    /// A fresh builder.
    pub fn builder() -> (b: ResBuilder)
        ensures
            b.spec_status() == 200,
            b.spec_headers() == Seq::<(Seq<char>, Seq<char>)>::empty(),
    {
        ResBuilder::new()
    }

    /// The status code.
    pub fn status_code(&self) -> (code: u16)
        ensures
            code == self@.status,
    {
        self.status
    }

    /// The same response with the header set; unchanged where the name or
    /// the value is not acceptable.
    pub fn with_header(self, name: &str, value: &str) -> (r: Res)
        ensures
            r@ == (ResView {
                headers: inserted(self@.headers, name@, value@, value.spec_bytes()),
                ..self@
            }),
    {
        let mut r = self;
        r.headers.insert(name, value);
        r
    }

    /// The headers.
    pub fn headers(&self) -> (h: &HeaderList)
        ensures
            h@ == self@.headers,
    {
        &self.headers
    }

    /// The headers, to be changed.
    pub fn headers_mut(&mut self) -> (h: &mut HeaderList)
        ensures
            h@ == old(self)@.headers,
            final(self)@ == (ResView { headers: final(h)@, ..old(self)@ }),
    {
        &mut self.headers
    }

    /// The body bytes.
    pub fn body(&self) -> (b: &Vec<u8>)
        ensures
            b@ == self@.body,
    {
        &self.body
    }

    /// Takes the response apart: status, headers, body.
    pub fn into_parts(self) -> (parts: (u16, HeaderList, Vec<u8>))
        ensures
            parts.0 == self@.status,
            parts.1@ == self@.headers,
            parts.2@ == self@.body,
    {
        (self.status, self.headers, self.body)
    }
}

impl Default for Res {
    fn default() -> (r: Res)
        ensures
            r@ == (ResView { status: 200, headers: Seq::empty(), body: Seq::empty() }),
    {
        Res::new()
    }
}

/// Builds a response step by step.
#[derive(Debug)]
pub struct ResBuilder {
    status: u16,
    headers: HeaderList,
}

impl ResBuilder {
    /// The status that the response will carry.
    pub closed spec fn spec_status(&self) -> u16 {
        self.status
    }

    /// The headers set so far.
    pub closed spec fn spec_headers(&self) -> Seq<(Seq<char>, Seq<char>)> {
        self.headers@
    }

    /// A builder for a 200 response without headers.
    pub fn new() -> (b: ResBuilder)
        ensures
            b.spec_status() == 200,
            b.spec_headers() == Seq::<(Seq<char>, Seq<char>)>::empty(),
    {
        ResBuilder { status: 200, headers: HeaderList::new() }
    }

    /// Sets the status: `code` where it is a status code, else 500.
    pub fn status(self, code: u16) -> (b: ResBuilder)
        ensures
            b.spec_status() == checked_status(code),
            b.spec_headers() == self.spec_headers(),
    {
        let status = if status_ok(code) {
            code
        } else {
            500
        };
        ResBuilder { status, headers: self.headers }
    }

    /// Sets a header; nothing changes where the name or the value is not
    /// acceptable.
    pub fn header(self, name: &str, value: &str) -> (b: ResBuilder)
        ensures
            b.spec_status() == self.spec_status(),
            b.spec_headers() == inserted(self.spec_headers(), name@, value@, value.spec_bytes()),
    {
        let mut b = self;
        b.headers.insert(name, value);
        b
    }

    /// The response with a text body; its content type is plain text unless
    /// one was set.
    pub fn text(self, body: &str) -> (r: Res)
        ensures
            r@ == (ResView {
                status: self.spec_status(),
                headers: with_default_type(self.spec_headers(), text_type()),
                body: encode_utf8(body@),
            }),
    {
        let mut headers = self.headers;
        if headers.get_canonical("content-type").is_none() {
            headers.put("content-type", "text/plain; charset=utf-8");
        }
        Res { status: self.status, headers, body: body.as_bytes_vec() }
    }

    /// The response with an HTML body; its content type is HTML unless one
    /// was set.
    pub fn html(self, body: &str) -> (r: Res)
        ensures
            r@ == (ResView {
                status: self.spec_status(),
                headers: with_default_type(self.spec_headers(), html_type()),
                body: encode_utf8(body@),
            }),
    {
        let mut headers = self.headers;
        if headers.get_canonical("content-type").is_none() {
            headers.put("content-type", "text/html; charset=utf-8");
        }
        Res { status: self.status, headers, body: body.as_bytes_vec() }
    }

    /// The response for the outcome of a JSON serialization: the bytes, with
    /// the JSON content type unless one was set; on failure a 500 text
    /// response that says so.
    pub fn json(self, serialized: Result<Vec<u8>, String>) -> (r: Res)
        ensures
            match serialized {
                Ok(bytes) => r@ == (ResView {
                    status: self.spec_status(),
                    headers: with_default_type(self.spec_headers(), json_type()),
                    body: bytes@,
                }),
                Err(_) => r@ == (ResView {
                    status: 500,
                    headers: with_entry(Seq::empty(), content_type_name(), text_type()),
                    body: encode_utf8("Failed to serialize JSON"@),
                }),
            },
    {
        match serialized {
            Ok(bytes) => {
                let mut headers = self.headers;
                if headers.get_canonical("content-type").is_none() {
                    headers.put("content-type", "application/json");
                }
                Res { status: self.status, headers, body: bytes }
            },
            Err(_) => {
                let r = Res::builder().status(500).text("Failed to serialize JSON");
                proof {
                    crate::headers::lemma_lookup_empty(content_type_name());
                }
                r
            },
        }
    }

    /// The response with the given body bytes.
    pub fn body(self, bytes: Vec<u8>) -> (r: Res)
        ensures
            r@ == (ResView {
                status: self.spec_status(),
                headers: self.spec_headers(),
                body: bytes@,
            }),
    {
        Res { status: self.status, headers: self.headers, body: bytes }
    }
}

impl Default for ResBuilder {
    fn default() -> (b: ResBuilder)
        ensures
            b.spec_status() == 200,
            b.spec_headers() == Seq::<(Seq<char>, Seq<char>)>::empty(),
    {
        ResBuilder::new()
    }
}

} // verus!

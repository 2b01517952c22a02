//! Requests: what the transport parsed, the captured path parameters, the
//! per-request store and the body, which is read at most once.

use std::any::TypeId;
use vstd::prelude::*;
use vstd::string::StringExecFns;
use crate::error::Error;
use crate::error::ErrorView;
use crate::extensions::Erased;
use crate::extensions::Extensions;
use crate::headers::HeaderList;
use crate::headers::header_name_canon;
use crate::headers::lookup;
use crate::res::content_type_name;
use crate::text::contains;
use crate::text::decimal;
use crate::text::decimal_string;
use crate::text::eq_ignore_ascii_case;
use crate::text::join2;
use crate::text::lowercase_of;
use crate::text::parse_usize;
use crate::text::parse_usize_spec;
use crate::text::spec_contains;
use crate::text::spec_eq_ignore_ascii_case;
use crate::text::str_eq;
use crate::text::to_lowercase;

verus! {

/// A request method.
#[derive(Clone, Copy, Debug, PartialEq, Eq, Structural)]
pub enum Method {
    Get,
    Post,
    Put,
    Delete,
    Patch,
    Head,
    Options,
    Connect,
    Trace,
    /// Any method that has no name here.
    Other,
}

/// What the transport yields when the body is read to its end.
#[derive(Debug)]
pub enum Incoming {
    /// The bytes of the body.
    Data(Vec<u8>),
    /// The read failed; holds what the transport reported.
    Failed(String),
}

/// An `Incoming` with its contents as sequences.
pub ghost enum IncomingView {
    Data(Seq<u8>),
    Failed(Seq<char>),
}

impl View for Incoming {
    type V = IncomingView;

    open spec fn view(&self) -> IncomingView {
        match *self {
            Incoming::Data(bytes) => IncomingView::Data(bytes@),
            Incoming::Failed(cause) => IncomingView::Failed(cause@),
        }
    }
}

/// The names and values of a list of pairs.
pub open spec fn pairs_view(pairs: Seq<(String, String)>) -> Seq<(Seq<char>, Seq<char>)> {
    Seq::new(pairs.len(), |i: int| (pairs[i].0@, pairs[i].1@))
}

/// The value of the last pair named `name`.
pub open spec fn last_value(pairs: Seq<(Seq<char>, Seq<char>)>, name: Seq<char>) -> Option<
    Seq<char>,
>
    decreases pairs.len(),
{
    if pairs.len() == 0 {
        None
    } else if pairs.last().0 == name {
        Some(pairs.last().1)
    } else {
        last_value(pairs.drop_last(), name)
    }
}

/// What a request is.
pub ghost struct ReqView {
    pub method: Method,
    pub path: Seq<char>,
    pub query: Option<Seq<char>>,
    pub headers: Seq<(Seq<char>, Seq<char>)>,
    pub params: Seq<(Seq<char>, Seq<char>)>,
    /// The body, once it was read with success.
    pub cached: Option<Seq<u8>>,
    /// The body that is still to be read; `None` once a read was tried.
    pub incoming: Option<IncomingView>,
    pub limit: Option<usize>,
    pub ext_keys: Seq<TypeId>,
    pub ext_values: Seq<Erased>,
}

/// The canonical name of the content length header.
pub open spec fn content_length_name() -> Seq<char> {
    "content-length"@
}

/// The body length that the headers declare, where they declare one that
/// can be read as a number.
pub open spec fn declared_length(headers: Seq<(Seq<char>, Seq<char>)>) -> Option<usize> {
    match lookup(headers, content_length_name()) {
        Some(text) => parse_usize_spec(text),
        None => None,
    }
}

/// The error for a body of `len` bytes under a limit of `limit` bytes.
pub open spec fn too_large(len: nat, limit: nat) -> ErrorView {
    ErrorView::Status(
        413,
        Some("Request body size "@ + decimal(len) + " exceeds limit of "@ + decimal(limit)),
    )
}

/// The error for a body that was given away before.
pub open spec fn already_consumed() -> ErrorView {
    ErrorView::Status(500, Some("Request body already consumed"@))
}

/// The error for a read that the transport failed.
pub open spec fn read_failed(cause: Seq<char>) -> ErrorView {
    ErrorView::Custom("Failed to read body: "@ + cause)
}

/// Whether the headers declare more than the limit allows.
pub open spec fn declares_too_much(v: ReqView) -> bool {
    v.limit is Some && declared_length(v.headers) is Some && declared_length(v.headers)->0
        > v.limit->0
}

/// What asking for the body gives.
pub open spec fn body_result(v: ReqView) -> Result<Seq<u8>, ErrorView> {
    match v.cached {
        Some(bytes) => Ok(bytes),
        None => match v.incoming {
            None => Err(already_consumed()),
            Some(incoming) => if declares_too_much(v) {
                Err(too_large(declared_length(v.headers)->0 as nat, v.limit->0 as nat))
            } else {
                match incoming {
                    IncomingView::Failed(cause) => Err(read_failed(cause)),
                    IncomingView::Data(bytes) => if v.limit is Some && bytes.len() > v.limit->0 {
                        Err(too_large(bytes.len(), v.limit->0 as nat))
                    } else {
                        Ok(bytes)
                    },
                }
            },
        },
    }
}

/// The request after its body was asked for: a body that was read stays;
/// otherwise what was still to be read is gone, and is kept where the read
/// succeeded.
pub open spec fn after_body(v: ReqView) -> ReqView {
    match v.cached {
        Some(_) => v,
        None => ReqView {
            incoming: None,
            cached: match body_result(v) {
                Ok(bytes) => Some(bytes),
                Err(_) => None,
            },
            ..v
        },
    }
}

/// Whether asking for the body takes bytes from the transport.
pub open spec fn reads_transport(v: ReqView) -> bool {
    v.cached is None && v.incoming is Some && !declares_too_much(v)
}

/// Whether the request asks to switch to the WebSocket protocol.
pub open spec fn wants_websocket(v: ReqView) -> bool {
    &&& v.method == Method::Get
    &&& lookup(v.headers, "upgrade"@) matches Some(upgrade)
    &&& spec_eq_ignore_ascii_case(upgrade, "websocket"@)
    &&& lookup(v.headers, "connection"@) matches Some(connection)
    &&& spec_contains(lowercase_of(connection), "upgrade"@)
    &&& lookup(v.headers, "sec-websocket-version"@) == Some("13"@)
    &&& lookup(v.headers, "sec-websocket-key"@) is Some
}

/// The body is taken from the transport at most once: whatever the request,
/// once the body was asked for no later call reads again, and the request
/// changes no more. Where the first call handed out bytes, every later call
/// hands out the same bytes.
pub proof fn lemma_body_read_once(v: ReqView)
    ensures
        !reads_transport(after_body(v)),
        after_body(after_body(v)) == after_body(v),
        body_result(v) matches Ok(bytes) ==> body_result(after_body(v)) == Ok::<
            Seq<u8>,
            ErrorView,
        >(bytes),
{
}

/// An HTTP request.
pub struct Req {
    method: Method,
    path: String,
    query: Option<String>,
    headers: HeaderList,
    body_cell: Option<Vec<u8>>,
    incoming: Option<Incoming>,
    path_params: Vec<(String, String)>,
    extensions: Extensions,
    body_limit: Option<usize>,
}

impl View for Req {
    type V = ReqView;

    closed spec fn view(&self) -> ReqView {
        ReqView {
            method: self.method,
            path: self.path@,
            query: match self.query {
                Some(q) => Some(q@),
                None => None,
            },
            headers: self.headers@,
            params: pairs_view(self.path_params@),
            cached: match self.body_cell {
                Some(bytes) => Some(bytes@),
                None => None,
            },
            incoming: match self.incoming {
                Some(incoming) => Some(incoming@),
                None => None,
            },
            limit: self.body_limit,
            ext_keys: self.extensions.keys(),
            ext_values: self.extensions.values(),
        }
    }
}

fn too_large_error(len: usize, limit: usize) -> (e: Error)
    ensures
        e@ == too_large(len as nat, limit as nat),
{
    let a = decimal_string(len as u64);
    let b = decimal_string(limit as u64);
    let head = join2("Request body size ", a.as_str());
    let head = head.concat(" exceeds limit of ");
    let text = head.concat(b.as_str());
    Error::payload_too_large(text.as_str())
}

impl Req {
    /// A request as the transport hands it over: no path parameters, an
    /// empty store, no body limit, the body still to be read.
    pub fn new(
        method: Method,
        path: String,
        query: Option<String>,
        headers: HeaderList,
        incoming: Incoming,
    ) -> (r: Req)
        ensures
            r@ == (ReqView {
                method,
                path: path@,
                query: match query {
                    Some(q) => Some(q@),
                    None => None,
                },
                headers: headers@,
                params: Seq::empty(),
                cached: None,
                incoming: Some(incoming@),
                limit: None,
                ext_keys: Seq::empty(),
                ext_values: Seq::empty(),
            }),
    {
        let r = Req {
            method,
            path,
            query,
            headers,
            body_cell: None,
            incoming: Some(incoming),
            path_params: Vec::new(),
            extensions: Extensions::new(),
            body_limit: None,
        };
        assert(pairs_view(r.path_params@) =~= Seq::empty());
        r
    }

    /// Sets the largest body that will be accepted, in bytes.
    pub fn set_body_limit(&mut self, limit: Option<usize>)
        ensures
            final(self)@ == (ReqView { limit, ..old(self)@ }),
    {
        self.body_limit = limit;
    }

    /// The method.
    pub fn method(&self) -> (m: Method)
        ensures
            m == self@.method,
    {
        self.method
    }

    /// The path.
    pub fn path(&self) -> (p: &str)
        ensures
            p@ == self@.path,
    {
        self.path.as_str()
    }

    /// The query string, if the target has one.
    pub fn query(&self) -> (q: Option<&str>)
        ensures
            match q {
                Some(text) => self@.query == Some(text@),
                None => self@.query is None,
            },
    {
        match &self.query {
            Some(q) => Some(q.as_str()),
            None => None,
        }
    }

    /// The value of the first header of that name, whatever the case in
    /// which the name is written.
    pub fn header(&self, name: &str) -> (r: Option<&str>)
        ensures
            match header_name_canon(name@) {
                Some(canon) => match r {
                    Some(v) => lookup(self@.headers, canon) == Some(v@),
                    None => lookup(self@.headers, canon) is None,
                },
                None => r is None,
            },
    {
        self.headers.get(name)
    }

    /// The headers.
    pub fn headers(&self) -> (h: &HeaderList)
        ensures
            h@ == self@.headers,
    {
        &self.headers
    }

    /// The headers, to be changed.
    pub fn headers_mut(&mut self) -> (h: &mut HeaderList)
        ensures
            h@ == old(self)@.headers,
            final(self)@ == (ReqView { headers: final(h)@, ..old(self)@ }),
    {
        &mut self.headers
    }

    /// The body. The first call takes it from the transport and keeps it;
    /// later calls hand the kept bytes out again. A body that is declared or
    /// found larger than the limit is refused with 413; after a refusal or
    /// a failed read there is nothing left to read.
    pub fn body(&mut self) -> (r: Result<&Vec<u8>, Error>)
        ensures
            final(self)@ == after_body(old(self)@),
            match r {
                Ok(bytes) => body_result(old(self)@) == Ok::<Seq<u8>, ErrorView>(bytes@),
                Err(e) => body_result(old(self)@) == Err::<Seq<u8>, ErrorView>(e@),
            },
    {
        if self.body_cell.is_none() {
            match self.load() {
                Ok(()) => {},
                Err(e) => {
                    return Err(e);
                },
            }
        }
        match &self.body_cell {
            Some(bytes) => Ok(bytes),
            None => Err(Error::internal("Request body already consumed")),
        }
    }

    fn load(&mut self) -> (r: Result<(), Error>)
        requires
            old(self)@.cached is None,
        ensures
            final(self)@ == after_body(old(self)@),
            match r {
                Ok(_) => body_result(old(self)@) is Ok && final(self)@.cached is Some,
                Err(e) => body_result(old(self)@) == Err::<Seq<u8>, ErrorView>(e@),
            },
    {
        let mut taken: Option<Incoming> = None;
        std::mem::swap(&mut taken, &mut self.incoming);
        let incoming = match taken {
            Some(incoming) => incoming,
            None => {
                return Err(Error::internal("Request body already consumed"));
            },
        };
        if let Some(limit) = self.body_limit {
            if let Some(text) = self.headers.get_canonical("content-length") {
                if let Some(length) = parse_usize(text) {
                    if length > limit {
                        return Err(too_large_error(length, limit));
                    }
                }
            }
        }
        match incoming {
            Incoming::Failed(cause) => {
                let text = join2("Failed to read body: ", cause.as_str());
                Err(Error::custom(text.as_str()))
            },
            Incoming::Data(bytes) => {
                if let Some(limit) = self.body_limit {
                    if bytes.len() > limit {
                        return Err(too_large_error(bytes.len(), limit));
                    }
                }
                self.body_cell = Some(bytes);
                Ok(())
            },
        }
    }

    /// The value of the content type header.
    pub fn content_type(&self) -> (r: Option<&str>)
        ensures
            match r {
                Some(v) => lookup(self@.headers, content_type_name()) == Some(v@),
                None => lookup(self@.headers, content_type_name()) is None,
            },
    {
        self.headers.get_canonical("content-type")
    }

    /// Whether the content type names JSON.
    pub fn is_json(&self) -> (r: bool)
        ensures
            r == match lookup(self@.headers, content_type_name()) {
                Some(v) => spec_contains(v, "application/json"@),
                None => false,
            },
    {
        match self.content_type() {
            Some(v) => contains(v, "application/json"),
            None => false,
        }
    }

    /// Whether the request asks to switch to the WebSocket protocol: a GET
    /// with `upgrade: websocket` in any case, a `connection` header that
    /// names `upgrade` in any case, version 13 and a key.
    pub fn is_websocket_upgrade(&self) -> (r: bool)
        ensures
            r == wants_websocket(self@),
    {
        if self.method != Method::Get {
            return false;
        }
        let upgrade = match self.headers.get_canonical("upgrade") {
            Some(v) => eq_ignore_ascii_case(v, "websocket"),
            None => false,
        };
        if !upgrade {
            return false;
        }
        let connection = match self.headers.get_canonical("connection") {
            Some(v) => {
                let small = to_lowercase(v);
                contains(small.as_str(), "upgrade")
            },
            None => false,
        };
        if !connection {
            return false;
        }
        let version = match self.headers.get_canonical("sec-websocket-version") {
            Some(v) => str_eq(v, "13"),
            None => false,
        };
        version && self.headers.get_canonical("sec-websocket-key").is_some()
    }

    /// The key that a WebSocket handshake sends.
    pub fn websocket_key(&self) -> (r: Option<&str>)
        ensures
            match r {
                Some(v) => lookup(self@.headers, "sec-websocket-key"@) == Some(v@),
                None => lookup(self@.headers, "sec-websocket-key"@) is None,
            },
    {
        self.headers.get_canonical("sec-websocket-key")
    }

    /// The per-request store.
    pub fn extensions(&self) -> (e: &Extensions)
        ensures
            e.keys() == self@.ext_keys,
            e.values() == self@.ext_values,
    {
        &self.extensions
    }

    /// The per-request store, to be changed.
    pub fn extensions_mut(&mut self) -> (e: &mut Extensions)
        ensures
            e.keys() == old(self)@.ext_keys,
            e.values() == old(self)@.ext_values,
            final(self)@ == (ReqView {
                ext_keys: final(e).keys(),
                ext_values: final(e).values(),
                ..old(self)@
            }),
    {
        &mut self.extensions
    }

    /// The value that the path captured under `name`.
    pub fn param(&self, name: &str) -> (r: Option<&str>)
        ensures
            match r {
                Some(v) => last_value(self@.params, name@) == Some(v@),
                None => last_value(self@.params, name@) is None,
            },
    {
        let ghost pairs = pairs_view(self.path_params@);
        let mut i: usize = self.path_params.len();
        proof {
            assert(pairs.take(i as int) =~= pairs);
        }
        while i > 0
            invariant
                i <= self.path_params@.len(),
                pairs == pairs_view(self.path_params@),
                last_value(pairs, name@) == last_value(pairs.take(i as int), name@),
            decreases i,
        {
            proof {
                assert(pairs.take(i as int).drop_last() =~= pairs.take(i - 1));
                assert(pairs.take(i as int).last() == pairs[i - 1]);
            }
            i = i - 1;
            if str_eq(self.path_params[i].0.as_str(), name) {
                return Some(self.path_params[i].1.as_str());
            }
        }
        proof {
            assert(pairs.take(0) =~= Seq::empty());
        }
        None
    }

    /// The captured path parameters, in the order of the pattern.
    pub fn params(&self) -> (p: &Vec<(String, String)>)
        ensures
            pairs_view(p@) == self@.params,
    {
        &self.path_params
    }

    /// The captured path parameters, in the order of the pattern.
    pub fn path_params(&self) -> (p: &Vec<(String, String)>)
        ensures
            pairs_view(p@) == self@.params,
    {
        &self.path_params
    }

    /// Replaces the captured path parameters.
    pub fn set_path_params(&mut self, params: Vec<(String, String)>)
        ensures
            final(self)@ == (ReqView { params: pairs_view(params@), ..old(self)@ }),
    {
        self.path_params = params;
    }
}

} // verus!

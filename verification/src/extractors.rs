//! Extractors: the checks that stand before a value is read from a
//! request, and what becomes of a value that could not be read.
//!
//! Turning bytes into a value of the caller's type is the caller's part.
//! Each extractor here says where the bytes come from and when they are
//! refused, and turns the outcome of the reading into the extractor or the
//! error that answers the request.

use vstd::prelude::*;
use vstd::pervasive::cloned;
use crate::error::Error;
use crate::error::ErrorView;
use crate::headers::HeaderList;
use crate::headers::lookup;
use crate::into_res::IntoRes;
use crate::into_res::error_response;
use crate::req::Req;
use crate::req::ReqView;
use crate::req::after_body;
use crate::req::body_result;
use crate::req::pairs_view;
use crate::req::reads_transport;
use crate::res::Res;
use crate::res::content_type_name;
use crate::text::join2;
use crate::text::join3;
use crate::text::spec_starts_with;
use crate::text::starts_with;

verus! {

/// The shared application state.
#[derive(Debug)]
pub struct State<S>(pub S);

/// Query parameters read into `T`.
#[derive(Debug)]
pub struct Query<T>(pub T);

/// A form body read into `T`.
#[derive(Debug)]
pub struct Form<T>(pub T);

/// A JSON body read into `T`.
#[derive(Debug)]
pub struct Json<T>(pub T);

/// Path parameters read into `T`.
#[derive(Debug)]
pub struct Path<T>(pub T);

/// The headers of the request.
#[derive(Debug)]
pub struct Headers(pub HeaderList);

/// The bytes of the body.
#[derive(Debug)]
pub struct BodyBytes(pub Vec<u8>);

/// The media type of form bodies.
pub open spec fn form_type() -> Seq<char> {
    "application/x-www-form-urlencoded"@
}

/// The media type of JSON bodies.
pub open spec fn json_media_type() -> Seq<char> {
    "application/json"@
}

/// The content type that the request declares; empty where it declares
/// none.
pub open spec fn declared_type(v: ReqView) -> Seq<char> {
    match lookup(v.headers, content_type_name()) {
        Some(t) => t,
        None => Seq::empty(),
    }
}

/// What asking for a body of media type `media` gives: 400 with `refusal`
/// where the request declares another type, else what the body gives.
pub open spec fn typed_body(v: ReqView, media: Seq<char>, refusal: Seq<char>) -> Result<
    Seq<u8>,
    ErrorView,
> {
    if spec_starts_with(declared_type(v), media) {
        body_result(v)
    } else {
        Err(ErrorView::Status(400, Some(refusal)))
    }
}

/// The request after a body of media type `media` was asked for: the body
/// is touched only where the type is right.
pub open spec fn after_typed_body(v: ReqView, media: Seq<char>) -> ReqView {
    if spec_starts_with(declared_type(v), media) {
        after_body(v)
    } else {
        v
    }
}

/// Two extractors that consume the body, one after the other on the same
/// request, whatever media types they ask for: where both get bytes, they
/// get the same bytes, and the second reads nothing from the transport.
pub proof fn lemma_same_body(
    v: ReqView,
    first_media: Seq<char>,
    first_refusal: Seq<char>,
    second_media: Seq<char>,
    second_refusal: Seq<char>,
)
    ensures
        typed_body(v, first_media, first_refusal) matches Ok(first) ==> {
            let then = after_typed_body(v, first_media);
            &&& !reads_transport(then)
            &&& typed_body(then, second_media, second_refusal) matches Ok(second) ==> second
                == first
            &&& body_result(then) == Ok::<Seq<u8>, ErrorView>(first)
        },
{
}

fn body_of_type<'a>(req: &'a mut Req, media: &str, refusal: &str) -> (r: Result<&'a Vec<u8>, Error>)
    ensures
        final(req)@ == after_typed_body(old(req)@, media@),
        match r {
            Ok(bytes) => typed_body(old(req)@, media@, refusal@) == Ok::<Seq<u8>, ErrorView>(
                bytes@,
            ),
            Err(e) => typed_body(old(req)@, media@, refusal@) == Err::<Seq<u8>, ErrorView>(e@),
        },
{
    let declared = match req.content_type() {
        Some(t) => t,
        None => "",
    };
    proof {
        reveal_strlit("");
        assert(""@ =~= Seq::<char>::empty());
    }
    let matches = starts_with(declared, media);
    if !matches {
        return Err(Error::bad_request(refusal));
    }
    req.body()
}

/// What becomes of a value that was read, or of the reason why it could not
/// be: the value, or an error of `code` whose message is `intro`, the
/// reason and `outro`.
pub open spec fn accepted<T>(
    parsed: Result<T, String>,
    code: u16,
    intro: Seq<char>,
    outro: Seq<char>,
) -> Result<T, ErrorView> {
    match parsed {
        Ok(value) => Ok(value),
        Err(reason) => Err(ErrorView::Status(code, Some(intro + reason@ + outro))),
    }
}

impl<S> State<S> {
    /// Wraps the state.
    pub fn extract(state: S) -> (s: State<S>)
        ensures
            s.0 == state,
    {
        State(state)
    }

    /// The state of a request: a clone of the shared state.
    pub fn from_request(state: &S) -> (r: Result<State<S>, Error>) where S: Clone
        ensures
            r matches Ok(s) && cloned(*state, s.0),
    {
        Ok(State(state.clone()))
    }
}

impl<T> Query<T> {
    /// The query string that is to be read; 400 where the target has none.
    pub fn source(req: &Req) -> (r: Result<&str, Error>)
        ensures
            match r {
                Ok(query) => req@.query == Some(query@),
                Err(e) => req@.query is None && e@ == ErrorView::Status(
                    400,
                    Some("Missing query string"@),
                ),
            },
    {
        match req.query() {
            Some(query) => Ok(query),
            None => Err(Error::bad_request("Missing query string")),
        }
    }

    /// The extractor for a value that was read, or 400 with the reason why
    /// the query could not be read.
    pub fn accept(parsed: Result<T, String>) -> (r: Result<Query<T>, Error>)
        ensures
            match r {
                Ok(q) => parsed == Ok::<T, String>(q.0),
                Err(e) => accepted(parsed, 400, "Invalid query parameters: "@, Seq::empty())
                    == Err::<T, ErrorView>(e@),
            },
    {
        match parsed {
            Ok(value) => Ok(Query(value)),
            Err(reason) => {
                let text = join2("Invalid query parameters: ", reason.as_str());
                assert(text@ =~= "Invalid query parameters: "@ + reason@ + Seq::<char>::empty());
                Err(Error::bad_request(text.as_str()))
            },
        }
    }
}

impl<T> Form<T> {
    /// The bytes that are to be read: the body, where the request declares
    /// a form; 400 where it does not.
    pub fn source(req: &mut Req) -> (r: Result<&Vec<u8>, Error>)
        ensures
            final(req)@ == after_typed_body(old(req)@, form_type()),
            match r {
                Ok(bytes) => typed_body(
                    old(req)@,
                    form_type(),
                    "Content-Type must be application/x-www-form-urlencoded"@,
                ) == Ok::<Seq<u8>, ErrorView>(bytes@),
                Err(e) => typed_body(
                    old(req)@,
                    form_type(),
                    "Content-Type must be application/x-www-form-urlencoded"@,
                ) == Err::<Seq<u8>, ErrorView>(e@),
            },
    {
        body_of_type(
            req,
            "application/x-www-form-urlencoded",
            "Content-Type must be application/x-www-form-urlencoded",
        )
    }

    /// The extractor for a value that was read, or 422 with the reason why
    /// the form could not be read.
    pub fn accept(parsed: Result<T, String>) -> (r: Result<Form<T>, Error>)
        ensures
            match r {
                Ok(f) => parsed == Ok::<T, String>(f.0),
                Err(e) => accepted(parsed, 422, "Invalid form data: "@, Seq::empty()) == Err::<
                    T,
                    ErrorView,
                >(e@),
            },
    {
        match parsed {
            Ok(value) => Ok(Form(value)),
            Err(reason) => {
                let text = join2("Invalid form data: ", reason.as_str());
                assert(text@ =~= "Invalid form data: "@ + reason@ + Seq::<char>::empty());
                Err(Error::unprocessable(text.as_str()))
            },
        }
    }
}

impl<T> Json<T> {
    /// The bytes that are to be read: the body, where the request declares
    /// JSON; 400 where it does not.
    pub fn source(req: &mut Req) -> (r: Result<&Vec<u8>, Error>)
        ensures
            final(req)@ == after_typed_body(old(req)@, json_media_type()),
            match r {
                Ok(bytes) => typed_body(
                    old(req)@,
                    json_media_type(),
                    "Content-Type must be application/json"@,
                ) == Ok::<Seq<u8>, ErrorView>(bytes@),
                Err(e) => typed_body(
                    old(req)@,
                    json_media_type(),
                    "Content-Type must be application/json"@,
                ) == Err::<Seq<u8>, ErrorView>(e@),
            },
    {
        body_of_type(req, "application/json", "Content-Type must be application/json")
    }

    /// The extractor for a value that was read, or 400 with the reason why
    /// the JSON could not be read.
    pub fn accept(parsed: Result<T, String>) -> (r: Result<Json<T>, Error>)
        ensures
            match r {
                Ok(j) => parsed == Ok::<T, String>(j.0),
                Err(e) => accepted(parsed, 400, "Invalid JSON: "@, Seq::empty()) == Err::<
                    T,
                    ErrorView,
                >(e@),
            },
    {
        match parsed {
            Ok(value) => Ok(Json(value)),
            Err(reason) => {
                let text = join2("Invalid JSON: ", reason.as_str());
                assert(text@ =~= "Invalid JSON: "@ + reason@ + Seq::<char>::empty());
                Err(Error::bad_request(text.as_str()))
            },
        }
    }
}

impl<T> Path<T> {
    /// The parameters that are to be read: those that the path captured.
    pub fn source(req: &Req) -> (params: &Vec<(String, String)>)
        ensures
            pairs_view(params@) == req@.params,
    {
        req.path_params()
    }

    /// The extractor for a value that was read, or 400 with the reason why
    /// the parameters could not be read.
    pub fn accept(parsed: Result<T, String>) -> (r: Result<Path<T>, Error>)
        ensures
            match r {
                Ok(p) => parsed == Ok::<T, String>(p.0),
                Err(e) => accepted(
                    parsed,
                    400,
                    "Invalid path parameters: "@,
                    ". Use String type for path segments"@,
                ) == Err::<T, ErrorView>(e@),
            },
    {
        match parsed {
            Ok(value) => Ok(Path(value)),
            Err(reason) => {
                let text = join3(
                    "Invalid path parameters: ",
                    reason.as_str(),
                    ". Use String type for path segments",
                );
                Err(Error::bad_request(text.as_str()))
            },
        }
    }
}

impl Headers {
    /// The headers of the request, copied.
    pub fn from_request(req: &Req) -> (r: Result<Headers, Error>)
        ensures
            r matches Ok(h) && h.0@ == req@.headers,
    {
        Ok(Headers(req.headers().copy()))
    }
}

impl BodyBytes {
    /// The bytes of the body, copied.
    pub fn from_request(req: &mut Req) -> (r: Result<BodyBytes, Error>)
        ensures
            final(req)@ == after_body(old(req)@),
            match r {
                Ok(b) => body_result(old(req)@) == Ok::<Seq<u8>, ErrorView>(b.0@),
                Err(e) => body_result(old(req)@) == Err::<Seq<u8>, ErrorView>(e@),
            },
    {
        match req.body() {
            Ok(bytes) => Ok(BodyBytes(copy_bytes(bytes))),
            Err(e) => Err(e),
        }
    }
}

fn copy_bytes(bytes: &Vec<u8>) -> (r: Vec<u8>)
    ensures
        r@ == bytes@,
{
    let mut r: Vec<u8> = Vec::new();
    let mut i: usize = 0;
    while i < bytes.len()
        invariant
            i <= bytes@.len(),
            r@ == bytes@.take(i as int),
        decreases bytes@.len() - i,
    {
        r.push(bytes[i]);
        proof {
            assert(bytes@.take(i + 1) =~= bytes@.take(i as int).push(bytes@[i as int]));
        }
        i = i + 1;
    }
    proof {
        assert(bytes@.take(i as int) =~= bytes@);
    }
    r
}

/// What a handler does after one of its arguments was asked for.
pub enum Extracted<T> {
    /// Goes on with the value.
    Value(T),
    /// Gives up: the response answers the request, no further argument is
    /// asked for and the handler's function is not called.
    Respond(Res),
}

/// Decides how a handler goes on after an extraction: with the value, or
/// not at all, the error being the response.
pub fn extracted<T>(result: Result<T, Error>) -> (step: Extracted<T>)
    ensures
        match result {
            Ok(value) => step == Extracted::Value(value),
            Err(e) => step matches Extracted::Respond(res) && res@ == error_response(e@),
        },
{
    match result {
        Ok(value) => Extracted::Value(value),
        Err(e) => Extracted::Respond(e.into_res()),
    }
}

} // verus!

//! Ready-made responses for common statuses.

use vstd::prelude::*;
use crate::headers::lemma_lookup_empty;
use crate::into_res::bare_response;
use crate::into_res::text_response;
use crate::res::Res;
use crate::res::content_type_name;

verus! {

/// 200 OK.
pub fn ok() -> (r: Res)
    ensures
        r@ == bare_response(200),
{
    Res::status(200)
}

/// 201 Created.
pub fn created() -> (r: Res)
    ensures
        r@ == bare_response(201),
{
    Res::status(201)
}

/// 204 No Content.
pub fn no_content() -> (r: Res)
    ensures
        r@ == bare_response(204),
{
    Res::status(204)
}

/// 400 Bad Request with a message.
pub fn bad_request(msg: &str) -> (r: Res)
    ensures
        r@ == text_response(400, msg@),
{
    proof {
        lemma_lookup_empty(content_type_name());
    }
    Res::builder().status(400).text(msg)
}

/// 401 Unauthorized.
pub fn unauthorized() -> (r: Res)
    ensures
        r@ == text_response(401, "Unauthorized"@),
{
    proof {
        lemma_lookup_empty(content_type_name());
    }
    Res::builder().status(401).text("Unauthorized")
}

/// 403 Forbidden.
pub fn forbidden() -> (r: Res)
    ensures
        r@ == text_response(403, "Forbidden"@),
{
    proof {
        lemma_lookup_empty(content_type_name());
    }
    Res::builder().status(403).text("Forbidden")
}

/// 404 Not Found.
pub fn not_found() -> (r: Res)
    ensures
        r@ == text_response(404, "Not Found"@),
{
    proof {
        lemma_lookup_empty(content_type_name());
    }
    Res::builder().status(404).text("Not Found")
}

/// 500 Internal Server Error.
pub fn internal_error() -> (r: Res)
    ensures
        r@ == text_response(500, "Internal Server Error"@),
{
    proof {
        lemma_lookup_empty(content_type_name());
    }
    Res::builder().status(500).text("Internal Server Error")
}

/// 503 Service Unavailable.
pub fn service_unavailable() -> (r: Res)
    ensures
        r@ == text_response(503, "Service Unavailable"@),
{
    proof {
        lemma_lookup_empty(content_type_name());
    }
    Res::builder().status(503).text("Service Unavailable")
}

} // verus!

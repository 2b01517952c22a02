//! A single route with middleware of its own.

use vstd::prelude::*;
use vstd::string::StringExecFns;
use crate::req::Method;
use crate::router::Endpoint;
use crate::router::EndpointView;

verus! {

/// A route that carries its own middleware.
#[derive(Debug)]
pub struct Route {
    endpoint: Endpoint,
}

impl View for Route {
    type V = EndpointView;

    closed spec fn view(&self) -> EndpointView {
        self.endpoint@
    }
}

/// A route without middleware.
pub open spec fn plain_route(method: Method, path: Seq<char>, handler: usize) -> EndpointView {
    EndpointView { method, path, handler, middlewares: Seq::empty() }
}

impl Route {
    /// A route of the given method.
    pub fn new(method: Method, path: String, handler: usize) -> (r: Route)
        ensures
            r@ == plain_route(method, path@, handler),
    {
        Route { endpoint: Endpoint { method, path, handler, middlewares: Vec::new() } }
    }

    /// Adds a middleware that wraps the route, inside those added before.
    pub fn layer(self, middleware: usize) -> (r: Route)
        ensures
            r@ == (EndpointView { middlewares: self@.middlewares.push(middleware), ..self@ }),
    {
        let mut r = self;
        r.endpoint.middlewares.push(middleware);
        r
    }

    /// A GET route.
    pub fn get(path: &str, handler: usize) -> (r: Route)
        ensures
            r@ == plain_route(Method::Get, path@, handler),
    {
        Route::new(Method::Get, String::from_str(path), handler)
    }

    /// A POST route.
    pub fn post(path: &str, handler: usize) -> (r: Route)
        ensures
            r@ == plain_route(Method::Post, path@, handler),
    {
        Route::new(Method::Post, String::from_str(path), handler)
    }

    /// A PUT route.
    pub fn put(path: &str, handler: usize) -> (r: Route)
        ensures
            r@ == plain_route(Method::Put, path@, handler),
    {
        Route::new(Method::Put, String::from_str(path), handler)
    }

    /// A DELETE route.
    pub fn delete(path: &str, handler: usize) -> (r: Route)
        ensures
            r@ == plain_route(Method::Delete, path@, handler),
    {
        Route::new(Method::Delete, String::from_str(path), handler)
    }

    /// A PATCH route.
    pub fn patch(path: &str, handler: usize) -> (r: Route)
        ensures
            r@ == plain_route(Method::Patch, path@, handler),
    {
        Route::new(Method::Patch, String::from_str(path), handler)
    }

    /// The endpoint that the route describes.
    pub fn into_endpoint(self) -> (e: Endpoint)
        ensures
            e@ == self@,
    {
        self.endpoint
    }
}

} // verus!

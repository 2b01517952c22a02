//! Request-dispatch core of a small HTTP framework: route table, middleware
//! chain, typed per-request store and request extractors, as plain values
//! with verified contracts.
//!
//! Handlers and middleware are known to the core by their numbers only; who
//! runs them, and how, is up to the caller. For each request the core
//! decides which chain of middleware and handler is to run, says what runs
//! at each depth of that chain, and turns results and errors into
//! responses.

pub mod text;
pub mod error;
pub mod headers;
pub mod res;
pub mod into_res;
pub mod extensions;
pub mod req;
pub mod router;
pub mod pattern;
pub mod table;
pub mod route;
pub mod api;
pub mod middleware;
pub mod extractors;
pub mod config;
pub mod client;
pub mod prelude;

pub use api::RustApi;
pub use error::Error;
pub use error::Result;
pub use into_res::IntoRes;
pub use middleware::Next;
pub use req::Req;
pub use res::Res;
pub use res::ResBuilder;
pub use route::Route;
pub use router::Router;

//! Server configuration.

use std::time::Duration;
use vstd::prelude::*;

verus! {

/// Server configuration.
#[derive(Debug, Clone)]
pub struct ServerConfig {
    /// Maximum request body size in bytes.
    pub body_limit: Option<usize>,
    /// Request timeout.
    pub request_timeout: Option<Duration>,
    /// Handler execution timeout.
    pub handler_timeout: Option<Duration>,
    /// Enable HTTP/2 support.
    pub http2: bool,
    /// Maximum number of concurrent connections.
    pub max_connections: Option<usize>,
    /// TCP keep-alive duration.
    pub keep_alive: Option<Duration>,
}

/// The configuration in which nothing is set.
pub open spec fn unset(c: ServerConfig) -> bool {
    c.body_limit is None && c.request_timeout is None && c.handler_timeout is None && !c.http2
        && c.max_connections is None && c.keep_alive is None
}

impl Default for ServerConfig {
    fn default() -> (c: ServerConfig)
        ensures
            unset(c),
    {
        ServerConfig {
            body_limit: None,
            request_timeout: None,
            handler_timeout: None,
            http2: false,
            max_connections: None,
            keep_alive: None,
        }
    }
}

impl ServerConfig {
    /// A configuration in which nothing is set.
    pub fn new() -> (c: ServerConfig)
        ensures
            unset(c),
    {
        ServerConfig {
            body_limit: None,
            request_timeout: None,
            handler_timeout: None,
            http2: false,
            max_connections: None,
            keep_alive: None,
        }
    }
}

} // verus!

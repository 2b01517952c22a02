//! The HTTP client's settings and its choice of where to connect.

use std::time::Duration;
use vstd::prelude::*;
use vstd::string::StringExecFns;
use crate::text::decimal;
use crate::text::decimal_string;
use crate::text::join2;
use crate::text::join3;
use crate::text::str_eq;

verus! {

/// The duration of `secs` whole seconds.
pub uninterp spec fn duration_of_secs(secs: u64) -> Duration;

/// `Duration::from_secs`: the duration of that many whole seconds.
pub assume_specification[ Duration::from_secs ](secs: u64) -> (d: Duration)
    ensures
        d == duration_of_secs(secs),
;

/// HTTP client.
pub struct Client {
    timeout: Option<Duration>,
}

/// Where a request is sent.
#[derive(Debug)]
pub struct Target {
    /// Whether the connection is to be encrypted.
    pub secure: bool,
    pub host: String,
    pub port: u16,
}

/// What a target is.
pub ghost struct TargetView {
    pub secure: bool,
    pub host: Seq<char>,
    pub port: u16,
}

impl View for Target {
    type V = TargetView;

    open spec fn view(&self) -> TargetView {
        TargetView { secure: self.secure, host: self.host@, port: self.port }
    }
}

/// The scheme of a URL, `http` where it names none.
pub open spec fn scheme_or_default(scheme: Option<Seq<char>>) -> Seq<char> {
    match scheme {
        Some(s) => s,
        None => "http"@,
    }
}

/// Where a request for a URL of that scheme, host and port is sent, or why
/// it cannot be sent.
pub open spec fn target_of(
    scheme: Option<Seq<char>>,
    host: Option<Seq<char>>,
    port: Option<u16>,
) -> Result<TargetView, Seq<char>> {
    match host {
        None => Err("URI has no host"@),
        Some(host) => {
            let scheme = scheme_or_default(scheme);
            if scheme == "http"@ {
                Ok(
                    TargetView {
                        secure: false,
                        host,
                        port: match port {
                            Some(p) => p,
                            None => 80,
                        },
                    },
                )
            } else if scheme == "https"@ {
                Ok(
                    TargetView {
                        secure: true,
                        host,
                        port: match port {
                            Some(p) => p,
                            None => 443,
                        },
                    },
                )
            } else {
                Err("Unsupported scheme: "@ + scheme)
            }
        },
    }
}

impl Client {
    /// The time after which a request is given up, if any.
    pub closed spec fn spec_timeout(&self) -> Option<Duration> {
        self.timeout
    }

    /// A client that gives a request up after 30 seconds.
    pub fn new() -> (c: Client)
        ensures
            c.spec_timeout() == Some(duration_of_secs(30)),
    {
        Client { timeout: Some(Duration::from_secs(30)) }
    }

    /// The client with the given timeout.
    pub fn with_timeout(self, duration: Duration) -> (c: Client)
        ensures
            c.spec_timeout() == Some(duration),
    {
        let mut c = self;
        c.timeout = Some(duration);
        c
    }

    /// The client without a timeout.
    pub fn with_no_timeout(self) -> (c: Client)
        ensures
            c.spec_timeout() is None,
    {
        let mut c = self;
        c.timeout = None;
        c
    }

    /// Sets the timeout.
    pub fn set_timeout(&mut self, duration: Duration)
        ensures
            final(self).spec_timeout() == Some(duration),
    {
        self.timeout = Some(duration);
    }

    /// Removes the timeout.
    pub fn disable_timeout(&mut self)
        ensures
            final(self).spec_timeout() is None,
    {
        self.timeout = None;
    }

    /// The time after which a request is given up, if any.
    pub fn timeout(&self) -> (t: Option<Duration>)
        ensures
            t == self.spec_timeout(),
    {
        self.timeout
    }

    /// Chooses where to connect for a URL: plain HTTP on port 80 unless the
    /// URL says otherwise, HTTPS on port 443; no host or another scheme is
    /// an error.
    pub fn target(scheme: Option<&str>, host: Option<&str>, port: Option<u16>) -> (r: Result<
        Target,
        String,
    >)
        ensures
            match r {
                Ok(t) => target_of(
                    match scheme {
                        Some(s) => Some(s@),
                        None => None,
                    },
                    match host {
                        Some(h) => Some(h@),
                        None => None,
                    },
                    port,
                ) == Ok::<TargetView, Seq<char>>(t@),
                Err(e) => target_of(
                    match scheme {
                        Some(s) => Some(s@),
                        None => None,
                    },
                    match host {
                        Some(h) => Some(h@),
                        None => None,
                    },
                    port,
                ) == Err::<TargetView, Seq<char>>(e@),
            },
    {
        let host = match host {
            Some(h) => h,
            None => {
                return Err(String::from_str("URI has no host"));
            },
        };
        let scheme = match scheme {
            Some(s) => s,
            None => "http",
        };
        if str_eq(scheme, "http") {
            let port = match port {
                Some(p) => p,
                None => 80,
            };
            Ok(Target { secure: false, host: String::from_str(host), port })
        } else if str_eq(scheme, "https") {
            let port = match port {
                Some(p) => p,
                None => 443,
            };
            Ok(Target { secure: true, host: String::from_str(host), port })
        } else {
            Err(join2("Unsupported scheme: ", scheme))
        }
    }
}

impl Target {
    /// The address to connect to: the host, a colon and the port.
    pub fn address(&self) -> (a: String)
        ensures
            a@ == self@.host + ":"@ + decimal(self@.port as nat),
    {
        let port = decimal_string(self.port as u64);
        join3(self.host.as_str(), ":", port.as_str())
    }
}

impl Default for Client {
    fn default() -> (c: Client)
        ensures
            c.spec_timeout() == Some(duration_of_secs(30)),
    {
        Client::new()
    }
}

} // verus!

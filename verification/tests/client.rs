use std::time::Duration;

use rust_api::client::Client;
use rust_api::config::ServerConfig;

#[test]
fn timeout_settings() {
    let c = Client::new();
    assert_eq!(c.timeout(), Some(Duration::from_secs(30)));
    let c = c.with_timeout(Duration::from_millis(1500));
    assert_eq!(c.timeout(), Some(Duration::from_millis(1500)));
    let mut c = c.with_no_timeout();
    assert_eq!(c.timeout(), None);
    c.set_timeout(Duration::from_secs(2));
    assert_eq!(c.timeout(), Some(Duration::from_secs(2)));
    c.disable_timeout();
    assert_eq!(c.timeout(), None);
    assert_eq!(Client::default().timeout(), Some(Duration::from_secs(30)));
}

#[test]
fn where_a_request_goes() {
    let t = Client::target(None, Some("example.com"), None).unwrap();
    assert_eq!((t.secure, t.host.as_str(), t.port), (false, "example.com", 80));
    assert_eq!(t.address(), "example.com:80");
    let t = Client::target(Some("http"), Some("h"), Some(8080)).unwrap();
    assert_eq!((t.secure, t.port), (false, 8080));
    assert_eq!(t.address(), "h:8080");
    let t = Client::target(Some("https"), Some("h"), None).unwrap();
    assert_eq!((t.secure, t.port), (true, 443));
    let t = Client::target(Some("https"), Some("h"), Some(8443)).unwrap();
    assert_eq!((t.secure, t.port), (true, 8443));
    assert_eq!(Client::target(Some("http"), None, None).unwrap_err(), "URI has no host");
    assert_eq!(Client::target(Some("ftp"), Some("h"), None).unwrap_err(), "Unsupported scheme: ftp");
    assert_eq!(Client::target(Some("HTTP"), Some("h"), None).unwrap_err(), "Unsupported scheme: HTTP");
}

#[test]
fn config_starts_unset() {
    for c in [ServerConfig::new(), ServerConfig::default()] {
        assert_eq!(c.body_limit, None);
        assert_eq!(c.request_timeout, None);
        assert_eq!(c.handler_timeout, None);
        assert!(!c.http2);
        assert_eq!(c.max_connections, None);
        assert_eq!(c.keep_alive, None);
    }
}

use rust_api::res::Res;
use rust_api::res::ResBuilder;

#[test]
fn new_is_empty_200() {
    let r = Res::new();
    assert_eq!(r.status_code(), 200);
    assert_eq!(r.headers().len(), 0);
    assert!(r.body().is_empty());
}

#[test]
fn text_html_and_json() {
    let r = Res::text("hi");
    assert_eq!(r.status_code(), 200);
    assert_eq!(r.headers().get("content-type"), Some("text/plain; charset=utf-8"));
    assert_eq!(r.body().as_slice(), b"hi");

    let r = Res::html("<p>\u{e9}</p>");
    assert_eq!(r.headers().get("content-type"), Some("text/html; charset=utf-8"));
    assert_eq!(r.body().as_slice(), "<p>\u{e9}</p>".as_bytes());

    let r = Res::json(Ok(b"{\"a\":1}".to_vec()));
    assert_eq!(r.status_code(), 200);
    assert_eq!(r.headers().get("content-type"), Some("application/json"));
    assert_eq!(r.body().as_slice(), b"{\"a\":1}");

    let r = Res::json(Err("boom".to_string()));
    assert_eq!(r.status_code(), 500);
    assert_eq!(r.headers().get("content-type"), Some("application/json"));
    assert_eq!(
        r.body().as_slice(),
        b"{\"error\": \"JSON serialization failed: boom\"}"
    );
}

#[test]
fn status_outside_the_range_becomes_500() {
    assert_eq!(Res::status(204).status_code(), 204);
    assert_eq!(Res::status(100).status_code(), 100);
    assert_eq!(Res::status(999).status_code(), 999);
    assert_eq!(Res::status(99).status_code(), 500);
    assert_eq!(Res::status(1000).status_code(), 500);
    assert_eq!(Res::status(0).status_code(), 500);
    assert_eq!(Res::builder().status(42).text("x").status_code(), 500);
}

#[test]
fn with_header_sets_or_ignores() {
    let r = Res::text("x").with_header("X-Trace", "abc").with_header("bad name", "v");
    assert_eq!(r.headers().len(), 2);
    assert_eq!(r.headers().get("x-trace"), Some("abc"));
    let r = r.with_header("content-type", "text/csv");
    assert_eq!(r.headers().len(), 2);
    assert_eq!(r.headers().get("content-type"), Some("text/csv"));
}

#[test]
fn builder_keeps_a_content_type_that_was_set() {
    let r = ResBuilder::new().status(201).header("Content-Type", "text/csv").text("a,b");
    assert_eq!(r.status_code(), 201);
    assert_eq!(r.headers().len(), 1);
    assert_eq!(r.headers().get("content-type"), Some("text/csv"));
    assert_eq!(r.body().as_slice(), b"a,b");

    let r = ResBuilder::new().header("x-a", "1").html("<p>");
    assert_eq!(r.headers().get("content-type"), Some("text/html; charset=utf-8"));
    assert_eq!(r.headers().get("x-a"), Some("1"));
}

#[test]
fn builder_json_and_body() {
    let r = Res::builder().status(202).json(Ok(b"[]".to_vec()));
    assert_eq!(r.status_code(), 202);
    assert_eq!(r.headers().get("content-type"), Some("application/json"));
    assert_eq!(r.body().as_slice(), b"[]");

    let r = Res::builder().status(202).header("x-a", "1").json(Err("e".to_string()));
    assert_eq!(r.status_code(), 500);
    assert_eq!(r.headers().len(), 1);
    assert_eq!(r.headers().get("content-type"), Some("text/plain; charset=utf-8"));
    assert_eq!(r.body().as_slice(), b"Failed to serialize JSON");

    let r = Res::builder().status(206).header("x-a", "1").body(vec![1, 2, 3]);
    assert_eq!(r.status_code(), 206);
    assert_eq!(r.headers().len(), 1);
    assert_eq!(r.body().as_slice(), &[1, 2, 3]);
    let (status, headers, body) = r.into_parts();
    assert_eq!(status, 206);
    assert_eq!(headers.get("x-a"), Some("1"));
    assert_eq!(body, vec![1, 2, 3]);
}

#[test]
fn headers_can_be_changed_in_place() {
    let mut r = Res::default();
    assert!(r.headers_mut().insert("x-a", "1"));
    assert_eq!(r.headers().get("X-A"), Some("1"));
    assert_eq!(r.status_code(), 200);
    let r = ResBuilder::default().text("t");
    assert_eq!(r.status_code(), 200);
}

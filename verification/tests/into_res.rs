use std::borrow::Cow;

use rust_api::into_res::status;
use rust_api::into_res::Html;

#[test]
fn test_html_from_static() {
    let html = Html::from_static("<h1>Hello</h1>");
    assert!(matches!(html.0, Cow::Borrowed(_)));
}

#[test]
fn test_html_from_string() {
    let html = Html::from_string("<h1>Hello</h1>".to_string());
    assert!(matches!(html.0, Cow::Owned(_)));
}

#[test]
fn test_status_helpers() {
    let res = status::ok();
    assert_eq!(res.status_code(), 200);

    let res = status::not_found();
    assert_eq!(res.status_code(), 404);
}

use rust_api::error::Error;
use rust_api::into_res::IntoRes;
use rust_api::res::Res;

fn text_of(res: &Res) -> String {
    String::from_utf8(res.body().clone()).unwrap()
}

#[test]
fn error_responses() {
    let r = Error::bad_request("nope").into_res();
    assert_eq!(r.status_code(), 400);
    assert_eq!(text_of(&r), "400 nope");
    assert_eq!(r.headers().get("content-type"), Some("text/plain; charset=utf-8"));

    let r = Error::unauthorized("who").into_res();
    assert_eq!((r.status_code(), text_of(&r)), (401, "401 who".to_string()));
    let r = Error::forbidden("no").into_res();
    assert_eq!((r.status_code(), text_of(&r)), (403, "403 no".to_string()));
    let r = Error::not_found("gone").into_res();
    assert_eq!((r.status_code(), text_of(&r)), (404, "404 gone".to_string()));
    let r = Error::payload_too_large("big").into_res();
    assert_eq!((r.status_code(), text_of(&r)), (413, "413 big".to_string()));
    let r = Error::unprocessable("bad").into_res();
    assert_eq!((r.status_code(), text_of(&r)), (422, "422 bad".to_string()));
    let r = Error::internal("oops").into_res();
    assert_eq!((r.status_code(), text_of(&r)), (500, "500 oops".to_string()));

    let r = Error::status(418).into_res();
    assert_eq!(r.status_code(), 418);
    assert!(r.body().is_empty());
    assert_eq!(r.headers().len(), 0);

    let r = Error::Status(7, Some("odd".to_string())).into_res();
    assert_eq!((r.status_code(), text_of(&r)), (500, "7 odd".to_string()));

    let r = Error::Json("eof".to_string()).into_res();
    assert_eq!((r.status_code(), text_of(&r)), (400, "JSON error: eof".to_string()));
    let r = Error::Hyper("reset".to_string()).into_res();
    assert_eq!((r.status_code(), text_of(&r)), (500, "HTTP error: reset".to_string()));
    let r = Error::Io("denied".to_string()).into_res();
    assert_eq!((r.status_code(), text_of(&r)), (500, "IO error: denied".to_string()));
    let r = Error::custom("plain").into_res();
    assert_eq!((r.status_code(), text_of(&r)), (500, "plain".to_string()));
}

#[test]
fn error_messages() {
    assert_eq!(Error::bad_request("nope").message(), "HTTP 400: nope");
    assert_eq!(Error::status(404).message(), "HTTP 404");
    assert_eq!(Error::Json("eof".to_string()).message(), "JSON error: eof");
    assert_eq!(Error::Hyper("reset".to_string()).message(), "HTTP error: reset");
    assert_eq!(Error::Io("denied".to_string()).message(), "IO error: denied");
    assert_eq!(Error::custom("plain").message(), "plain");
}

#[test]
fn results_of_handlers() {
    let r = "hello".into_res();
    assert_eq!((r.status_code(), text_of(&r)), (200, "hello".to_string()));
    let r = String::from("owned").into_res();
    assert_eq!((r.status_code(), text_of(&r)), (200, "owned".to_string()));
    let r = ().into_res();
    assert_eq!(r.status_code(), 204);
    assert!(r.body().is_empty());
    let ok: Result<&'static str, Error> = Ok("fine");
    assert_eq!(ok.into_res().status_code(), 200);
    let err: Result<&'static str, Error> = Err(Error::forbidden("no"));
    assert_eq!(err.into_res().status_code(), 403);
    let r = Res::status(201).into_res();
    assert_eq!(r.status_code(), 201);
    let page = Html::from_static("<h1>Hello</h1>");
    let r = (&page).into_res();
    assert_eq!(r.headers().get("content-type"), Some("text/html; charset=utf-8"));
    assert_eq!(text_of(&r), "<h1>Hello</h1>");
    let r = Html::from_string("<p>".to_string()).into_res();
    assert_eq!(text_of(&r), "<p>");
}

#[test]
fn all_status_helpers() {
    assert_eq!(status::created().status_code(), 201);
    assert_eq!(status::no_content().status_code(), 204);
    let r = status::bad_request("why");
    assert_eq!((r.status_code(), text_of(&r)), (400, "why".to_string()));
    let r = status::unauthorized();
    assert_eq!((r.status_code(), text_of(&r)), (401, "Unauthorized".to_string()));
    let r = status::forbidden();
    assert_eq!((r.status_code(), text_of(&r)), (403, "Forbidden".to_string()));
    let r = status::not_found();
    assert_eq!((r.status_code(), text_of(&r)), (404, "Not Found".to_string()));
    let r = status::internal_error();
    assert_eq!((r.status_code(), text_of(&r)), (500, "Internal Server Error".to_string()));
    let r = status::service_unavailable();
    assert_eq!((r.status_code(), text_of(&r)), (503, "Service Unavailable".to_string()));
}

#[test]
fn conversions_into_errors_and_pages() {
    let e: Error = String::from("plain").into();
    assert!(matches!(e, Error::Custom(ref m) if m == "plain"));
    let h: Html = String::from("<p>").into();
    assert!(matches!(h.0, Cow::Owned(_)));
    let h: Html = "<p>".into();
    assert!(matches!(h.0, Cow::Borrowed(_)));
}

use rust_api::api::Dispatch;
use rust_api::api::RustApi;
use rust_api::extractors::extracted;
use rust_api::extractors::Extracted;
use rust_api::extractors::Json;
use rust_api::headers::HeaderList;
use rust_api::into_res::IntoRes;
use rust_api::req::Incoming;
use rust_api::req::Method;
use rust_api::req::Req;
use rust_api::res::Res;
use rust_api::route::Route;
use rust_api::router::Endpoint;
use rust_api::router::Router;
use rust_api::table::count_char;
use rust_api::table::RouteTable;

fn get(path: &str) -> Req {
    Req::new(Method::Get, path.to_string(), None, HeaderList::new(), Incoming::Data(vec![]))
}

fn with_method(method: Method, path: &str) -> Req {
    Req::new(method, path.to_string(), None, HeaderList::new(), Incoming::Data(vec![]))
}

fn handler_of(d: &Dispatch) -> Option<usize> {
    match d {
        Dispatch::Run(plan) => Some(plan.endpoint.handler),
        Dispatch::Respond(_) => None,
    }
}

fn status_of(d: &Dispatch) -> Option<u16> {
    match d {
        Dispatch::Run(_) => None,
        Dispatch::Respond(res) => Some(res.status_code()),
    }
}

fn text_of(res: &Res) -> String {
    String::from_utf8(res.body().clone()).unwrap()
}

#[test]
fn literal_routes_resolve_to_their_own_handler() {
    let api = RustApi::new()
        .get("/", 0)
        .get("/health", 1)
        .post("/health", 2)
        .put("/users/list", 3)
        .delete("/users/list/all", 4)
        .patch("/users", 5)
        .build_router();
    assert!(api.routes_resolve());
    let cases = [
        (Method::Get, "/", 0),
        (Method::Get, "/health", 1),
        (Method::Post, "/health", 2),
        (Method::Put, "/users/list", 3),
        (Method::Delete, "/users/list/all", 4),
        (Method::Patch, "/users", 5),
    ];
    for (method, path, handler) in cases {
        let mut req = with_method(method, path);
        let d = api.handle_request(&mut req);
        assert_eq!(handler_of(&d), Some(handler), "{:?} {}", method, path);
        assert!(req.params().is_empty());
    }
    for (method, path) in [
        (Method::Put, "/health"),
        (Method::Get, "/users/list"),
        (Method::Get, "/healt"),
        (Method::Get, "/health/"),
        (Method::Get, ""),
        (Method::Head, "/health"),
        (Method::Options, "/"),
        (Method::Other, "/"),
    ] {
        let mut req = with_method(method, path);
        let d = api.handle_request(&mut req);
        assert_eq!(status_of(&d), Some(404), "{:?} {}", method, path);
    }
}

#[test]
fn a_capture_takes_the_segment_as_it_is() {
    let api = RustApi::new().get("/users/{id}", 1).get("/files/{name}/raw", 2).build_router();
    for value in ["42", "a", "a-b_c.d", "%20", "{x}", "\u{e9}t\u{e9}", "active"] {
        let mut req = get(&format!("/users/{}", value));
        let d = api.handle_request(&mut req);
        assert_eq!(handler_of(&d), Some(1), "value {:?}", value);
        assert_eq!(req.param("id"), Some(value));
        assert_eq!(req.params().len(), 1);

        let mut req = get(&format!("/files/{}/raw", value));
        let d = api.handle_request(&mut req);
        assert_eq!(handler_of(&d), Some(2), "value {:?}", value);
        assert_eq!(req.param("name"), Some(value));
    }
    for path in ["/users/", "/users", "/users/a/b", "/files//raw", "/files/a"] {
        let mut req = get(path);
        assert_eq!(status_of(&api.handle_request(&mut req)), Some(404), "path {:?}", path);
    }
}

#[test]
fn static_segments_take_precedence() {
    let api = RustApi::new().get("/users/{id}", 1).get("/users/active", 2).build_router();
    assert!(api.routes_resolve());
    let mut req = get("/users/active");
    assert_eq!(handler_of(&api.handle_request(&mut req)), Some(2));
    assert!(req.params().is_empty());
    let mut req = get("/users/activ");
    assert_eq!(handler_of(&api.handle_request(&mut req)), Some(1));
    assert_eq!(req.param("id"), Some("activ"));

    let api = RustApi::new().get("/users/active", 2).get("/users/{id}", 1).build_router();
    let mut req = get("/users/active");
    assert_eq!(handler_of(&api.handle_request(&mut req)), Some(2));
}

#[test]
fn the_route_registered_first_stays() {
    let api = RustApi::new()
        .get("/a", 1)
        .get("/a", 2)
        .get("/u/{id}", 3)
        .get("/u/{name}", 4)
        .get("/bad/{", 5)
        .get("/b", 6)
        .build_router();
    assert_eq!(handler_of(&api.handle_request(&mut get("/a"))), Some(1));
    let mut req = get("/u/7");
    assert_eq!(handler_of(&api.handle_request(&mut req)), Some(3));
    assert_eq!(req.param("id"), Some("7"));
    assert_eq!(req.param("name"), None);
    assert_eq!(status_of(&api.handle_request(&mut get("/bad/{"))), Some(404));
    assert_eq!(handler_of(&api.handle_request(&mut get("/b"))), Some(6));
}

#[test]
fn table_numbers_its_endpoints_in_order() {
    let mut table = RouteTable::new();
    let endpoint = |method, path: &str, handler| Endpoint {
        method,
        path: path.to_string(),
        handler,
        middlewares: vec![handler + 100],
    };
    assert!(table.register(endpoint(Method::Get, "/a", 1)));
    assert!(!table.register(endpoint(Method::Get, "/a", 2)));
    assert!(!table.register(endpoint(Method::Head, "/a", 3)));
    assert!(table.register(endpoint(Method::Post, "/a", 4)));
    assert_eq!(table.len(), 2);
    assert_eq!(table.endpoint(0).map(|e| e.handler), Some(1));
    assert_eq!(table.endpoint(1).map(|e| e.handler), Some(4));
    assert!(table.endpoint(2).is_none());
    assert_eq!(table.find(Method::Get, "/a").map(|hit| hit.0), Some(0));
    assert_eq!(table.find(Method::Post, "/a").map(|hit| hit.0), Some(1));
    assert_eq!(table.find(Method::Put, "/a").map(|hit| hit.0), None);
    assert_eq!(table.find(Method::Trace, "/a").map(|hit| hit.0), None);
    assert_eq!(table.resolve_hit(Method::Get, Some((0, vec![]))).map(|hit| hit.0), Some(0));
    assert_eq!(table.resolve_hit(Method::Post, Some((0, vec![]))).map(|hit| hit.0), None);
    assert_eq!(table.resolve_hit(Method::Get, Some((2, vec![]))).map(|hit| hit.0), None);
    assert_eq!(table.resolve_hit(Method::Get, None).map(|hit| hit.0), None);
}

#[test]
fn routes_with_too_many_parameters_are_left_out() {
    let mut path = String::new();
    for i in 0..26 {
        path.push_str(&format!("/{{p{}}}", i));
    }
    assert_eq!(count_char(&path, '{'), 26);
    let mut fits = String::new();
    for i in 0..25 {
        fits.push_str(&format!("/{{p{}}}", i));
    }
    let api = RustApi::new().get(&path, 1).get(&fits, 2).build_router();
    let request_path = "/v".repeat(26);
    assert_eq!(status_of(&api.handle_request(&mut get(&request_path))), Some(404));
    let request_path = "/v".repeat(25);
    let mut req = get(&request_path);
    assert_eq!(handler_of(&api.handle_request(&mut req)), Some(2));
    assert_eq!(req.params().len(), 25);
    assert_eq!(req.param("p24"), Some("v"));
}

#[test]
fn middleware_order_is_global_then_scope_then_route() {
    let api = RustApi::new()
        .layer(1)
        .get("/plain", 10)
        .route(Route::get("/admin", 11).layer(5).layer(6))
        .nest("/api", Router::new().get("/ping", 12).layer(3).nest("/v1", Router::new().get("/x", 13).layer(4)))
        .layer(2)
        .error_handler(77)
        .build_router();
    let plan_of = |path: &str| match api.handle_request(&mut get(path)) {
        Dispatch::Run(plan) => {
            assert_eq!(api.endpoint(plan.number).map(|e| e.handler), Some(plan.endpoint.handler));
            (plan.endpoint.handler, plan.endpoint.middlewares.clone(), plan.error_handler)
        },
        Dispatch::Respond(res) => panic!("no route for {}: {}", path, res.status_code()),
    };
    assert_eq!(plan_of("/plain"), (10, vec![1, 2], Some(77)));
    assert_eq!(plan_of("/admin"), (11, vec![1, 2, 5, 6], Some(77)));
    assert_eq!(plan_of("/api/ping"), (12, vec![1, 2, 3], Some(77)));
    assert_eq!(plan_of("/api/v1/x"), (13, vec![1, 2, 3, 4], Some(77)));
}

#[test]
fn requests_before_the_table_is_built_or_without_state() {
    let api = RustApi::new().get("/", 0);
    assert!(!api.routes_resolve());
    let d = api.handle_request(&mut get("/"));
    assert_eq!(status_of(&d), Some(500));
    if let Dispatch::Respond(res) = d {
        assert_eq!(text_of(&res), "500 Router not initialized");
    }
    let api = RustApi::<u8>::default().get("/u/{id}", 0).build_router();
    assert!(api.state().is_none());
    let mut req = get("/u/3");
    let d = api.handle_request(&mut req);
    assert_eq!(req.param("id"), Some("3"));
    if let Dispatch::Respond(res) = d {
        assert_eq!(res.status_code(), 500);
        assert_eq!(text_of(&res), "500 State not initialized");
    } else {
        panic!("a plan without state");
    }
    let d = api.handle_request(&mut get("/none"));
    if let Dispatch::Respond(res) = d {
        assert_eq!(res.status_code(), 404);
        assert_eq!(text_of(&res), "404 Route not found");
    } else {
        panic!("a plan without route");
    }
    let api = RustApi::with_state(5u8).get("/", 0).build_router();
    assert_eq!(api.state(), Some(&5));
    assert_eq!(handler_of(&api.handle_request(&mut get("/"))), Some(0));
    assert_eq!(api.endpoint(0).map(|e| e.path.as_str()), Some("/"));
    assert!(api.endpoint(1).is_none());
    assert!(RustApi::new().get("/", 0).endpoint(0).is_none());
}

fn serve(api: &RustApi<()>, req: &mut Req) -> Res {
    let handler = match api.handle_request(req) {
        Dispatch::Run(plan) => plan.endpoint.handler,
        Dispatch::Respond(res) => return res,
    };
    match handler {
        0 => format!("item:{}", req.param("id").unwrap_or("")).into_res(),
        1 => {
            let bytes = match extracted(Json::<()>::source(req).map(|b| b.clone())) {
                Extracted::Value(bytes) => bytes,
                Extracted::Respond(res) => return res,
            };
            let parsed = serde_json::from_slice::<serde_json::Value>(&bytes)
                .map_err(|e| e.to_string())
                .and_then(|v| match v.get("name").and_then(|n| n.as_str()) {
                    Some(name) => Ok(name.to_string()),
                    None => Err("missing field `name`".to_string()),
                });
            match extracted(Json::accept(parsed)) {
                Extracted::Value(Json(name)) => format!("created:{}", name).into_res(),
                Extracted::Respond(res) => res,
            }
        },
        2 => "pong".into_res(),
        _ => Res::status(500),
    }
}

fn post_json(path: &str, content_type: &str, body: &[u8]) -> Req {
    let mut headers = HeaderList::new();
    assert!(headers.append("Content-Type", content_type));
    Req::new(Method::Post, path.to_string(), None, headers, Incoming::Data(body.to_vec()))
}

#[test]
fn end_to_end() {
    let api = RustApi::new()
        .get("/items/{id}", 0)
        .post("/items/{id}", 1)
        .nest("/api", Router::new().get("/ping", 2))
        .build_router();

    let res = serve(&api, &mut get("/items/42"));
    assert_eq!(res.status_code(), 200);
    assert_eq!(text_of(&res), "item:42");

    let res = serve(&api, &mut post_json("/items/42", "application/json", b"{\"name\":\"x\"}"));
    assert_eq!(res.status_code(), 200);
    assert_eq!(text_of(&res), "created:x");

    let res = serve(&api, &mut post_json("/items/42", "text/plain", b"{\"name\":\"x\"}"));
    assert_eq!(res.status_code(), 400);
    assert_eq!(text_of(&res), "400 Content-Type must be application/json");

    let res = serve(&api, &mut post_json("/items/42", "application/json", b"{\"name\":1}"));
    assert_eq!(res.status_code(), 400);
    assert_eq!(text_of(&res), "400 Invalid JSON: missing field `name`");

    let res = serve(&api, &mut get("/api/ping"));
    assert_eq!(res.status_code(), 200);
    assert_eq!(text_of(&res), "pong");

    let mut big = post_json("/items/42", "application/json", b"{\"name\":12}");
    big.set_body_limit(Some(10));
    let res = serve(&api, &mut big);
    assert_eq!(res.status_code(), 413);
    assert_eq!(text_of(&res), "413 Request body size 11 exceeds limit of 10");

    let res = serve(&api, &mut get("/nothing"));
    assert_eq!(res.status_code(), 404);
}

#[test]
fn patterns_beyond_the_plain_kind_are_served_by_the_index() {
    let api = RustApi::new()
        .get("/files/{*rest}", 1)
        .get("/images/img{id}.png", 2)
        .get("/{{literal}}", 3)
        .get("/files/readme", 4)
        .build_router();
    assert!(api.routes_resolve());
    assert_eq!(handler_of(&api.handle_request(&mut get("/files/readme"))), Some(4));
    let mut req = get("/files/a/b.css");
    assert_eq!(handler_of(&api.handle_request(&mut req)), Some(1));
    assert_eq!(req.param("rest"), Some("a/b.css"));
    let mut req = get("/images/img7.png");
    assert_eq!(handler_of(&api.handle_request(&mut req)), Some(2));
    assert_eq!(req.param("id"), Some("7"));
    assert_eq!(status_of(&api.handle_request(&mut get("/images/img7.jpg"))), Some(404));
    assert_eq!(handler_of(&api.handle_request(&mut get("/{literal}"))), Some(3));
}

#[test]
fn every_odd_literal_resolves_to_itself() {
    let patterns = [
        "", "/", "a", "//", "/a/", "/a//b", "a/b", "/a b", "/caf\u{e9}", "/*", "/a*b", "/:id",
        "/x/../y", "?", "#", "/a?b=c", "/a", "/ab", "/abc", "/a/bc",
    ];
    let mut api = RustApi::new().get("/{x}", 100).get("/a/{y}", 101).get("/{x}/{z}/{w}", 102);
    for (i, p) in patterns.iter().enumerate() {
        api = api.get(p, i);
    }
    let api = api.build_router();
    assert!(api.routes_resolve());
    for (i, p) in patterns.iter().enumerate() {
        let mut req = get(p);
        assert_eq!(handler_of(&api.handle_request(&mut req)), Some(i), "pattern {:?}", p);
        assert!(req.params().is_empty());
    }
}

struct Lcg(u64);

impl Lcg {
    fn next(&mut self, bound: usize) -> usize {
        self.0 = self.0.wrapping_mul(6364136223846793005).wrapping_add(1442695040888963407);
        ((self.0 >> 33) as usize) % bound
    }
}

#[test]
fn the_table_answers_as_its_index_does() {
    let pattern_parts = ["a", "b", "ab", "{x}", "{y}", "{id}", ""];
    let path_parts = ["a", "b", "ab", "c", "x", "", "{x}"];
    let mut rng = Lcg(7);
    for _round in 0..200 {
        let mut index: matchit::Router<usize> = matchit::Router::new();
        let mut table = RouteTable::new();
        let mut taken: Vec<usize> = Vec::new();
        for handler in 0..(1 + rng.next(6)) {
            let mut pattern = String::new();
            for _ in 0..(1 + rng.next(3)) {
                pattern.push('/');
                pattern.push_str(pattern_parts[rng.next(pattern_parts.len())]);
            }
            let in_index = index.insert(pattern.clone(), handler).is_ok();
            let in_table = table.register(Endpoint {
                method: Method::Get,
                path: pattern.clone(),
                handler,
                middlewares: vec![],
            });
            assert_eq!(in_table, in_index, "pattern {:?}", pattern);
            if in_table {
                taken.push(handler);
            }
        }
        assert!(table.literals_resolve());
        for _ in 0..40 {
            let mut path = String::new();
            for _ in 0..(1 + rng.next(3)) {
                path.push('/');
                path.push_str(path_parts[rng.next(path_parts.len())]);
            }
            let expected = index.at(&path).ok().map(|m| {
                let params: Vec<(String, String)> =
                    m.params.iter().map(|(k, v)| (k.to_string(), v.to_string())).collect();
                (*m.value, params)
            });
            let found = table
                .find(Method::Get, &path)
                .map(|(number, params)| (table.endpoint(number).map(|e| e.handler), params));
            assert_eq!(
                found,
                expected.map(|(handler, params)| (Some(handler), params)),
                "path {:?}",
                path
            );
        }
        assert_eq!(table.len(), taken.len());
    }
}

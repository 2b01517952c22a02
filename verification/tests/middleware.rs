use rust_api::api::Dispatch;
use rust_api::api::RustApi;
use rust_api::headers::HeaderList;
use rust_api::into_res::IntoRes;
use rust_api::middleware::enter;
use rust_api::middleware::FnMiddleware;
use rust_api::middleware::Next;
use rust_api::middleware::Stage;
use rust_api::req::Incoming;
use rust_api::req::Method;
use rust_api::req::Req;
use rust_api::res::Res;
use rust_api::route::Route;
use rust_api::router::Endpoint;
use rust_api::router::Router;

/// What a test middleware does: it logs its number, then either answers at
/// once or continues and marks the response on the way back.
struct Run<'a> {
    chain: &'a Endpoint,
    stops: Vec<usize>,
    log: Vec<String>,
}

impl Run<'_> {
    fn stage(&mut self, stage: (Stage, Option<Next>), req: &mut Req) -> Res {
        match stage {
            (Stage::Handler(number), _) => {
                self.log.push(format!("handler {}", number));
                let seen = req.extensions().get::<Vec<usize>>().cloned().unwrap_or_default();
                format!("seen {:?}", seen).into_res()
            },
            (Stage::Middleware(number), next) => {
                self.log.push(format!("before {}", number));
                let mut seen = req.extensions_mut().remove::<Vec<usize>>().unwrap_or_default();
                seen.push(number);
                req.extensions_mut().insert(seen);
                if self.stops.contains(&number) {
                    return Res::builder().status(401).text("stopped");
                }
                let next = next.expect("a middleware can continue");
                let inner = next.run(self.chain);
                let res = self.stage(inner, req);
                self.log.push(format!("after {}", number));
                let trail = match res.headers().get("x-trail") {
                    Some(t) => format!("{},{}", t, number),
                    None => number.to_string(),
                };
                res.with_header("x-trail", &trail)
            },
        }
    }
}

fn run(chain: &Endpoint, stops: &[usize]) -> (Vec<String>, Res) {
    let mut req = Req::new(Method::Get, "/".to_string(), None, HeaderList::new(), Incoming::Data(vec![]));
    let mut run = Run { chain, stops: stops.to_vec(), log: Vec::new() };
    let first = enter(chain);
    let res = run.stage(first, &mut req);
    (run.log, res)
}

fn plan(handler: usize, middlewares: &[usize]) -> Endpoint {
    Endpoint { method: Method::Get, path: "/".to_string(), handler, middlewares: middlewares.to_vec() }
}

fn text_of(res: &Res) -> String {
    String::from_utf8(res.body().clone()).unwrap()
}

#[test]
fn before_in_order_after_in_reverse() {
    let (log, res) = run(&plan(9, &[1, 2, 3]), &[]);
    assert_eq!(
        log,
        vec!["before 1", "before 2", "before 3", "handler 9", "after 3", "after 2", "after 1"]
    );
    assert_eq!(res.status_code(), 200);
    assert_eq!(text_of(&res), "seen [1, 2, 3]");
    assert_eq!(res.headers().get("x-trail"), Some("3,2,1"));
}

#[test]
fn global_scope_and_route_middleware_run_in_that_order() {
    let api = RustApi::new()
        .layer(1)
        .layer(2)
        .nest("/s", Router::new().layer(3).get("/x", 8).nest("/t", Router::new().layer(4).get("/y", 9)))
        .route(Route::get("/r", 7).layer(5).layer(6))
        .build_router();
    let serve = |path: &str| {
        let mut req = Req::new(Method::Get, path.to_string(), None, HeaderList::new(), Incoming::Data(vec![]));
        match api.handle_request(&mut req) {
            Dispatch::Run(plan) => run(plan.endpoint, &[]),
            Dispatch::Respond(res) => panic!("{}: {}", path, res.status_code()),
        }
    };
    let (log, _) = serve("/s/t/y");
    assert_eq!(
        log,
        vec![
            "before 1", "before 2", "before 3", "before 4", "handler 9", "after 4", "after 3",
            "after 2", "after 1"
        ]
    );
    let (log, _) = serve("/r");
    assert_eq!(
        log,
        vec![
            "before 1", "before 2", "before 5", "before 6", "handler 7", "after 6", "after 5",
            "after 2", "after 1"
        ]
    );
}

#[test]
fn short_circuit_skips_what_is_further_in() {
    let (log, res) = run(&plan(9, &[1, 2, 3, 4]), &[3]);
    assert_eq!(log, vec!["before 1", "before 2", "before 3", "after 2", "after 1"]);
    assert_eq!(res.status_code(), 401);
    assert_eq!(text_of(&res), "stopped");
    assert_eq!(res.headers().get("x-trail"), Some("2,1"));

    let (log, res) = run(&plan(9, &[1, 2]), &[1]);
    assert_eq!(log, vec!["before 1"]);
    assert_eq!(res.headers().get("x-trail"), None);
}

#[test]
fn a_chain_without_middleware_is_the_handler() {
    let chain = plan(4, &[]);
    let (stage, next) = enter(&chain);
    assert_eq!(stage, Stage::Handler(4));
    assert!(next.is_none());
    let (log, res) = run(&plan(4, &[]), &[]);
    assert_eq!(log, vec!["handler 4"]);
    assert_eq!(text_of(&res), "seen []");
}

#[test]
fn each_handle_leads_one_level_further() {
    let chain = plan(7, &[10, 20]);
    let (stage, next) = enter(&chain);
    assert_eq!(stage, Stage::Middleware(10));
    let (stage, next) = next.unwrap().run(&chain);
    assert_eq!(stage, Stage::Middleware(20));
    let (stage, next) = next.unwrap().run(&chain);
    assert_eq!(stage, Stage::Handler(7));
    assert!(next.is_none());
}

#[test]
fn function_middleware_wraps_a_function() {
    let m = FnMiddleware(|x: u8| x + 1);
    assert_eq!((m.0)(1), 2);
}

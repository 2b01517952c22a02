//! The application: what is registered, the table built from it, and the
//! decision taken for each request.

use vstd::prelude::*;
use crate::error::Error;
use crate::error::ErrorView;
use crate::into_res::IntoRes;
use crate::into_res::error_response;
use crate::middleware::ChainView;
use crate::middleware::chain_of;
use crate::pattern::literal;
use crate::req::Method;
use crate::req::Req;
use crate::req::ReqView;
use crate::res::Res;
use crate::res::ResView;
use crate::route::Route;
use crate::route::plain_route;
use crate::router::Endpoint;
use crate::router::EndpointView;
use crate::router::Router;
use crate::router::RouterView;
use crate::router::concat_ids;
use crate::router::endpoints_view;
use crate::router::flatten;
use crate::table::RouteTable;
use crate::table::TableView;
use crate::table::built;
use crate::table::effective;
use crate::table::found;
use crate::table::lemma_built_counts;
use crate::table::lemma_built_keeps;
use crate::table::lemma_literal_route_resolves;
use crate::table::literals_resolve;
use crate::table::number_of;
use crate::table::taken_at;

verus! {

/// What is to be run for a request that found its route.
#[derive(Debug)]
pub struct Plan<'a> {
    /// The number of the endpoint in the table.
    pub number: usize,
    /// The endpoint, whose middleware and handler are the chain to run.
    pub endpoint: &'a Endpoint,
    /// The number of the error handler to attach to the request, if one
    /// was set.
    pub error_handler: Option<usize>,
}

/// The decision for a request.
#[derive(Debug)]
pub enum Dispatch<'a> {
    /// Run the chain of the plan.
    Run(Plan<'a>),
    /// Answer at once.
    Respond(Res),
}

/// A `Dispatch` with its contents as sequences.
pub ghost enum DispatchView {
    Run { number: usize, chain: ChainView, error_handler: Option<usize> },
    Respond(ResView),
}

impl<'a> View for Dispatch<'a> {
    type V = DispatchView;

    open spec fn view(&self) -> DispatchView {
        match *self {
            Dispatch::Run(plan) => DispatchView::Run {
                number: plan.number,
                chain: chain_of(plan.endpoint@),
                error_handler: plan.error_handler,
            },
            Dispatch::Respond(res) => DispatchView::Respond(res@),
        }
    }
}

/// What an application is.
pub ghost struct ApiView {
    /// The routes registered since the table was built last.
    pub routes: Seq<EndpointView>,
    /// The global middleware, outermost first.
    pub middlewares: Seq<usize>,
    pub has_state: bool,
    /// The table, once it was built.
    pub table: Option<TableView>,
    /// Whether the routes without braces were found to resolve when the
    /// table was built.
    pub resolves: bool,
    pub error_handler: Option<usize>,
}

/// The answer to a request that finds no table.
pub open spec fn no_table_response() -> ResView {
    error_response(ErrorView::Status(500, Some("Router not initialized"@)))
}

/// The answer to a request that finds no route.
pub open spec fn no_route_response() -> ResView {
    error_response(ErrorView::Status(404, Some("Route not found"@)))
}

/// The answer to a request that finds its route but no state.
pub open spec fn no_state_response() -> ResView {
    error_response(ErrorView::Status(500, Some("State not initialized"@)))
}

/// The decision for a request.
pub open spec fn decision(api: ApiView, req: ReqView) -> DispatchView {
    match api.table {
        None => DispatchView::Respond(no_table_response()),
        Some(table) => match found(table, req.method, req.path) {
            None => DispatchView::Respond(no_route_response()),
            Some((number, params)) => if api.has_state {
                DispatchView::Run {
                    number,
                    chain: chain_of(table.endpoints[number as int]),
                    error_handler: api.error_handler,
                }
            } else {
                DispatchView::Respond(no_state_response())
            },
        },
    }
}

/// The request after the decision: where a route was found, the parameters
/// that its path captured are set.
pub open spec fn routed(api: ApiView, req: ReqView) -> ReqView {
    match api.table {
        None => req,
        Some(table) => match found(table, req.method, req.path) {
            None => req,
            Some((number, params)) => ReqView { params, ..req },
        },
    }
}

/// A request for exactly the method and the pattern of a registered route
/// without braces runs the handler of that route, and of no other, behind
/// the global middleware followed by the route's own, whatever else is
/// registered: a capture in the same place does not take the request away.
/// This holds of every built application that has its state and whose
/// table took the route and was found to resolve.
pub proof fn lemma_literal_request(
    api: ApiView,
    routes: Seq<EndpointView>,
    global: Seq<usize>,
    j: int,
    req: ReqView,
)
    requires
        routes.len() <= usize::MAX,
        api.table == Some(built(routes, global, routes.len())),
        literals_resolve(built(routes, global, routes.len())),
        api.has_state,
        0 <= j < routes.len(),
        taken_at(routes, global, j),
        literal(routes[j].path),
        req.method == routes[j].method,
        req.path == routes[j].path,
    ensures
        decision(api, req) == (DispatchView::Run {
            number: number_of(routes, global, j) as usize,
            chain: ChainView {
                middlewares: global + routes[j].middlewares,
                handler: routes[j].handler,
            },
            error_handler: api.error_handler,
        }),
        routed(api, req) == (ReqView { params: Seq::empty(), ..req }),
{
    lemma_literal_route_resolves(routes, global, j);
    lemma_built_keeps(routes, global, j, routes.len());
    lemma_built_counts(routes, global, routes.len());
    let number = number_of(routes, global, j);
    assert(number as usize as int == number);
}

/// The routes with those of a group mounted at `prefix` added.
pub open spec fn nested_routes(
    routes: Seq<EndpointView>,
    prefix: Seq<char>,
    group: RouterView,
) -> Seq<EndpointView> {
    routes + flatten(group, prefix)
}

/// An application: routes, global middleware, shared state.
pub struct RustApi<S> {
    routes: Vec<Endpoint>,
    middlewares: Vec<usize>,
    state: Option<S>,
    router: Option<RouteTable>,
    resolves: bool,
    error_handler: Option<usize>,
}

impl<S> View for RustApi<S> {
    type V = ApiView;

    closed spec fn view(&self) -> ApiView {
        ApiView {
            routes: endpoints_view(self.routes@),
            middlewares: self.middlewares@,
            has_state: self.state is Some,
            table: match self.router {
                Some(table) => Some(table@),
                None => None,
            },
            resolves: self.resolves,
            error_handler: self.error_handler,
        }
    }
}

/// An application in which nothing is registered.
pub open spec fn empty_api(has_state: bool) -> ApiView {
    ApiView {
        routes: Seq::empty(),
        middlewares: Seq::empty(),
        has_state,
        table: None,
        resolves: false,
        error_handler: None,
    }
}

impl RustApi<()> {
    /// An application without state of its own.
    pub fn new() -> (api: RustApi<()>)
        ensures
            api@ == empty_api(true),
            api.spec_state() == Some(()),
    {
        let api = RustApi {
            routes: Vec::new(),
            middlewares: Vec::new(),
            state: Some(()),
            router: None,
            resolves: false,
            error_handler: None,
        };
        assert(endpoints_view(api.routes@) =~= Seq::empty());
        api
    }
}

impl<S> RustApi<S> {
    /// The shared state.
    pub closed spec fn spec_state(&self) -> Option<S> {
        self.state
    }

    /// An application with the given state.
    pub fn with_state(state: S) -> (api: RustApi<S>)
        ensures
            api@ == empty_api(true),
            api.spec_state() == Some(state),
    {
        let api = RustApi {
            routes: Vec::new(),
            middlewares: Vec::new(),
            state: Some(state),
            router: None,
            resolves: false,
            error_handler: None,
        };
        assert(endpoints_view(api.routes@) =~= Seq::empty());
        api
    }

    /// Whether the built table was found to resolve each of its routes
    /// without braces to the endpoint of that route. Where it was not, the
    /// index and the table disagree.
    pub fn routes_resolve(&self) -> (r: bool)
        ensures
            r == self@.resolves,
    {
        self.resolves
    }

    /// The endpoint of that number in the built table.
    pub fn endpoint(&self, number: usize) -> (e: Option<&Endpoint>)
        ensures
            match e {
                Some(endpoint) => self@.table matches Some(table) && number < table.endpoints.len()
                    && endpoint@ == table.endpoints[number as int],
                None => self@.table matches Some(table) ==> number >= table.endpoints.len(),
            },
    {
        match &self.router {
            Some(table) => table.endpoint(number),
            None => None,
        }
    }

    /// The shared state.
    pub fn state(&self) -> (s: Option<&S>)
        ensures
            match s {
                Some(state) => self.spec_state() == Some(*state),
                None => self.spec_state() is None,
            },
    {
        match &self.state {
            Some(state) => Some(state),
            None => None,
        }
    }

    /// Sets the error handler.
    pub fn error_handler(self, handler: usize) -> (api: RustApi<S>)
        ensures
            api@ == (ApiView { error_handler: Some(handler), ..self@ }),
            api.spec_state() == self.spec_state(),
    {
        let mut api = self;
        api.error_handler = Some(handler);
        api
    }

    /// Adds a global middleware, inside those added before.
    pub fn layer(self, middleware: usize) -> (api: RustApi<S>)
        ensures
            api@ == (ApiView { middlewares: self@.middlewares.push(middleware), ..self@ }),
            api.spec_state() == self.spec_state(),
    {
        let mut api = self;
        api.middlewares.push(middleware);
        api
    }

    fn add(self, endpoint: Endpoint) -> (api: RustApi<S>)
        ensures
            api@ == (ApiView { routes: self@.routes.push(endpoint@), ..self@ }),
            api.spec_state() == self.spec_state(),
    {
        let mut api = self;
        api.routes.push(endpoint);
        assert(endpoints_view(api.routes@) =~= endpoints_view(self.routes@).push(endpoint@));
        api
    }

    /// Registers a GET route.
    pub fn get(self, path: &str, handler: usize) -> (api: RustApi<S>)
        ensures
            api@ == (ApiView {
                routes: self@.routes.push(plain_route(Method::Get, path@, handler)),
                ..self@
            }),
            api.spec_state() == self.spec_state(),
    {
        self.add(Route::get(path, handler).into_endpoint())
    }

    /// Registers a POST route.
    pub fn post(self, path: &str, handler: usize) -> (api: RustApi<S>)
        ensures
            api@ == (ApiView {
                routes: self@.routes.push(plain_route(Method::Post, path@, handler)),
                ..self@
            }),
            api.spec_state() == self.spec_state(),
    {
        self.add(Route::post(path, handler).into_endpoint())
    }

    /// Registers a PUT route.
    pub fn put(self, path: &str, handler: usize) -> (api: RustApi<S>)
        ensures
            api@ == (ApiView {
                routes: self@.routes.push(plain_route(Method::Put, path@, handler)),
                ..self@
            }),
            api.spec_state() == self.spec_state(),
    {
        self.add(Route::put(path, handler).into_endpoint())
    }

    /// Registers a DELETE route.
    pub fn delete(self, path: &str, handler: usize) -> (api: RustApi<S>)
        ensures
            api@ == (ApiView {
                routes: self@.routes.push(plain_route(Method::Delete, path@, handler)),
                ..self@
            }),
            api.spec_state() == self.spec_state(),
    {
        self.add(Route::delete(path, handler).into_endpoint())
    }

    /// Registers a PATCH route.
    pub fn patch(self, path: &str, handler: usize) -> (api: RustApi<S>)
        ensures
            api@ == (ApiView {
                routes: self@.routes.push(plain_route(Method::Patch, path@, handler)),
                ..self@
            }),
            api.spec_state() == self.spec_state(),
    {
        self.add(Route::patch(path, handler).into_endpoint())
    }

    /// Registers a route that carries middleware of its own.
    pub fn route(self, route: Route) -> (api: RustApi<S>)
        ensures
            api@ == (ApiView { routes: self@.routes.push(route@), ..self@ }),
            api.spec_state() == self.spec_state(),
    {
        self.add(route.into_endpoint())
    }

    /// Mounts a group of routes under a prefix.
    pub fn nest(self, prefix: &str, router: Router) -> (api: RustApi<S>)
        ensures
            api@ == (ApiView { routes: nested_routes(self@.routes, prefix@, router@), ..self@ }),
            api.spec_state() == self.spec_state(),
    {
        let mut api = self;
        let mut flattened = router.flatten(prefix);
        let ghost added = endpoints_view(flattened@);
        let ghost before = endpoints_view(api.routes@);
        api.routes.append(&mut flattened);
        assert(endpoints_view(api.routes@) =~= before + added);
        api
    }

    /// Builds the route table from the routes registered so far, in the
    /// order of their registration; each route gets the global middleware
    /// around its own. The routes are handed over to the table, and the
    /// table is asked once for each of its routes without braces.
    pub fn build_router(self) -> (api: RustApi<S>)
        ensures
            api@ == (ApiView {
                routes: Seq::empty(),
                table: Some(built(self@.routes, self@.middlewares, self@.routes.len())),
                resolves: literals_resolve(
                    built(self@.routes, self@.middlewares, self@.routes.len()),
                ),
                ..self@
            }),
            api.spec_state() == self.spec_state(),
    {
        let mut api = self;
        let mut table = RouteTable::new();
        let ghost routes = endpoints_view(api.routes@);
        let ghost global = api.middlewares@;
        let mut i: usize = 0;
        while i < api.routes.len()
            invariant
                i <= api.routes@.len(),
                routes == endpoints_view(api.routes@),
                global == api.middlewares@,
                table@ == built(routes, global, i as nat),
            decreases api.routes@.len() - i,
        {
            let route = &api.routes[i];
            let endpoint = Endpoint {
                method: route.method,
                path: route.path.clone(),
                handler: route.handler,
                middlewares: concat_ids(&api.middlewares, &route.middlewares),
            };
            assert(endpoint@ == effective(routes[i as int], global));
            table.register(endpoint);
            i = i + 1;
        }
        api.routes = Vec::new();
        api.resolves = table.literals_resolve();
        api.router = Some(table);
        assert(endpoints_view(api.routes@) =~= Seq::empty());
        api
    }

    /// Decides what is to be done for a request: which handler runs behind
    /// which middleware, or which answer is given at once. Where a route is
    /// found, the request gets the parameters that its path captured.
    pub fn handle_request<'a>(&'a self, req: &mut Req) -> (d: Dispatch<'a>)
        ensures
            d@ == decision(self@, old(req)@),
            final(req)@ == routed(self@, old(req)@),
    {
        let table = match &self.router {
            Some(table) => table,
            None => {
                return Dispatch::Respond(Error::internal("Router not initialized").into_res());
            },
        };
        let (number, params) = match table.find(req.method(), req.path()) {
            Some(hit) => hit,
            None => {
                return Dispatch::Respond(Error::not_found("Route not found").into_res());
            },
        };
        req.set_path_params(params);
        if self.state.is_none() {
            return Dispatch::Respond(Error::internal("State not initialized").into_res());
        }
        Dispatch::Run(
            Plan { number, endpoint: table.at(number), error_handler: self.error_handler },
        )
    }
}

impl<S> Default for RustApi<S> {
    /// An application that has no state yet: every request that finds its
    /// route is answered with 500.
    fn default() -> (api: RustApi<S>)
        ensures
            api@ == empty_api(false),
            api.spec_state() is None,
    {
        let api = RustApi {
            routes: Vec::new(),
            middlewares: Vec::new(),
            state: None,
            router: None,
            resolves: false,
            error_handler: None,
        };
        assert(endpoints_view(api.routes@) =~= Seq::empty());
        api
    }
}

} // verus!

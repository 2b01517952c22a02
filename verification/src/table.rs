//! The route table: per method an index of path patterns, kept by the
//! `matchit` crate, over a list of endpoints.

use matchit::Router as PathIndex;
use vstd::prelude::*;
use crate::pattern::capture_name;
use crate::pattern::confirms;
use crate::pattern::is_literal;
use crate::pattern::joined;
use crate::pattern::lemma_literal_pattern;
use crate::pattern::lemma_single_capture;
use crate::pattern::literal;
use crate::pattern::pattern_match;
use crate::pattern::plain;
use crate::pattern::segments;
use crate::req::Method;
use crate::req::pairs_view;
use crate::router::Endpoint;
use crate::router::EndpointView;
use crate::router::endpoints_view;
use crate::text::chars_of;
use crate::text::str_eq;

verus! {

/// `matchit::Router`, an index from path patterns to values, under the
/// name that it has here: `Router` is what this library calls its route
/// groups. Nothing inside it is known.
#[verifier::external_type_specification]
#[verifier::external_body]
#[verifier::reject_recursive_types(T)]
pub struct ExPathIndex<T>(PathIndex<T>);

/// The insertions that were tried on an index, in their order: the route
/// and the value of each, whether or not it was accepted.
pub uninterp spec fn index_log(index: PathIndex<usize>) -> Seq<(Seq<char>, usize)>;

/// Whether an index that has seen the insertions of `log` accepts `route`.
pub uninterp spec fn route_accepted(log: Seq<(Seq<char>, usize)>, route: Seq<char>) -> bool;

/// What an index that has seen the insertions of `log` finds for `path`:
/// the value of the matching route and the captured parameters.
pub uninterp spec fn route_lookup(log: Seq<(Seq<char>, usize)>, path: Seq<char>) -> Option<
    (usize, Seq<(Seq<char>, Seq<char>)>),
>;

/// How many times `c` occurs in `s`.
pub open spec fn count_of(s: Seq<char>, c: char) -> nat
    decreases s.len(),
{
    if s.len() == 0 {
        0
    } else {
        count_of(s.drop_last(), c) + if s.last() == c {
            1nat
        } else {
            0nat
        }
    }
}

/// The most parameters that the index can take in one route.
pub const MAX_ROUTE_PARAMS: usize = 25;

/// The most insertions that one table tries.
pub const MAX_INSERTIONS: usize = 0xFFFF_FFFE;

/// A route that the index can be asked to insert: it opens a brace at most
/// `MAX_ROUTE_PARAMS` times, so it has no more parameters than that.
pub open spec fn insertable(route: Seq<char>) -> bool {
    count_of(route, '{') <= MAX_ROUTE_PARAMS
}

/// Calls `matchit::Router::new`. The claim: nothing was inserted yet.
#[verifier::external_body]
fn index_new() -> (index: PathIndex<usize>)
    ensures
        index_log(index) == Seq::<(Seq<char>, usize)>::empty(),
{
    PathIndex::new()
}

/// Calls `matchit::Router::insert` and says whether the route was
/// accepted. The claims: the outcome is a function of the insertions tried
/// so far and of the route; the insertion is then one of those tried.
/// `insert` panics on a route of 26 parameters or more and counts its calls
/// in 32 bits: both are kept out.
#[verifier::external_body]
fn index_insert(index: &mut PathIndex<usize>, route: &str, value: usize) -> (accepted: bool)
    requires
        insertable(route@),
        index_log(*old(index)).len() <= MAX_INSERTIONS,
    ensures
        accepted == route_accepted(index_log(*old(index)), route@),
        index_log(*final(index)) == index_log(*old(index)).push((route@, value)),
{
    index.insert(route, value).is_ok()
}

/// Calls `matchit::Router::at` and hands back the value and the parameters
/// of a match. The claim: the outcome is a function of the insertions tried
/// so far and of the path.
#[verifier::external_body]
fn index_at(index: &PathIndex<usize>, path: &str) -> (hit: Option<
    (usize, Vec<(String, String)>),
>)
    ensures
        match hit {
            Some((value, params)) => route_lookup(index_log(*index), path@) == Some(
                (value, pairs_view(params@)),
            ),
            None => route_lookup(index_log(*index), path@) is None,
        },
{
    match index.at(path) {
        Ok(found) => Some(
            (
                *found.value,
                found.params.iter().map(|(k, v)| (k.to_string(), v.to_string())).collect(),
            ),
        ),
        Err(_) => None,
    }
}

/// Counts how often `c` occurs in `s`.
pub fn count_char(s: &str, c: char) -> (n: usize)
    ensures
        n == count_of(s@, c),
{
    let chars = chars_of(s);
    let len = chars.len();
    let mut n: usize = 0;
    let mut i: usize = 0;
    while i < len
        invariant
            chars@ == s@,
            len == s@.len(),
            i <= len,
            n <= i,
            n == count_of(s@.take(i as int), c),
        decreases len - i,
    {
        proof {
            assert(s@.take(i + 1).drop_last() =~= s@.take(i as int));
        }
        if chars[i] == c {
            n = n + 1;
        }
        i = i + 1;
    }
    proof {
        assert(s@.take(i as int) =~= s@);
    }
    n
}

/// Whether routes can be registered under the method.
pub open spec fn routable(method: Method) -> bool {
    method == Method::Get || method == Method::Post || method == Method::Put || method
        == Method::Delete || method == Method::Patch
}

/// What a route table is.
pub ghost struct TableView {
    pub get: Seq<(Seq<char>, usize)>,
    pub post: Seq<(Seq<char>, usize)>,
    pub put: Seq<(Seq<char>, usize)>,
    pub delete: Seq<(Seq<char>, usize)>,
    pub patch: Seq<(Seq<char>, usize)>,
    /// The endpoints that were accepted, in the order of their registration.
    pub endpoints: Seq<EndpointView>,
    /// How many insertions the indexes were asked for, all together.
    pub asked: nat,
}

/// The empty table.
pub open spec fn empty_table() -> TableView {
    TableView {
        get: Seq::empty(),
        post: Seq::empty(),
        put: Seq::empty(),
        delete: Seq::empty(),
        patch: Seq::empty(),
        endpoints: Seq::empty(),
        asked: 0,
    }
}

/// The insertions tried on the index of `method`.
pub open spec fn log_of(t: TableView, method: Method) -> Seq<(Seq<char>, usize)> {
    match method {
        Method::Get => t.get,
        Method::Post => t.post,
        Method::Put => t.put,
        Method::Delete => t.delete,
        Method::Patch => t.patch,
        _ => Seq::empty(),
    }
}

/// The table with one more insertion tried on the index of `method`.
pub open spec fn with_log(t: TableView, method: Method, entry: (Seq<char>, usize)) -> TableView {
    match method {
        Method::Get => TableView { get: t.get.push(entry), ..t },
        Method::Post => TableView { post: t.post.push(entry), ..t },
        Method::Put => TableView { put: t.put.push(entry), ..t },
        Method::Delete => TableView { delete: t.delete.push(entry), ..t },
        Method::Patch => TableView { patch: t.patch.push(entry), ..t },
        _ => t,
    }
}

/// Whether an endpoint of that method and pattern is in the list.
pub open spec fn has_route(endpoints: Seq<EndpointView>, method: Method, path: Seq<char>) -> bool {
    exists|i: int|
        0 <= i < endpoints.len() && (#[trigger] endpoints[i]).method == method && endpoints[i].path
            == path
}

/// No two endpoints have the same method and the same pattern.
pub open spec fn distinct_routes(endpoints: Seq<EndpointView>) -> bool {
    forall|i: int, j: int|
        0 <= i < j < endpoints.len() ==> !((#[trigger] endpoints[i]).method == (
        #[trigger] endpoints[j]).method && endpoints[i].path == endpoints[j].path)
}

/// Whether the table asks its index to insert the endpoint: not where the
/// table has the method and pattern already.
pub open spec fn offered(t: TableView, e: EndpointView) -> bool {
    routable(e.method) && insertable(e.path) && t.asked <= MAX_INSERTIONS && !has_route(
        t.endpoints,
        e.method,
        e.path,
    )
}

/// Whether the table takes the endpoint: the index is asked and accepts.
pub open spec fn taken(t: TableView, e: EndpointView) -> bool {
    offered(t, e) && route_accepted(log_of(t, e.method), e.path)
}

/// The table after the registration of `e` was tried. An accepted endpoint
/// stands at the end of the list and is the value of its route in the index
/// of its method. One that is not accepted leaves the list as it was: of
/// two routes with the same method and pattern, and of two that the index
/// cannot tell apart, the one that was registered first stays.
pub open spec fn registered(t: TableView, e: EndpointView) -> TableView {
    let logged = if offered(t, e) {
        with_log(t, e.method, (e.path, t.endpoints.len() as usize))
    } else {
        t
    };
    TableView {
        endpoints: if taken(t, e) {
            t.endpoints.push(e)
        } else {
            t.endpoints
        },
        asked: if offered(t, e) {
            t.asked + 1
        } else {
            t.asked
        },
        ..logged
    }
}

/// The endpoint that a route becomes in the table: the global middleware
/// wrap the route's own.
pub open spec fn effective(route: EndpointView, global: Seq<usize>) -> EndpointView {
    EndpointView { middlewares: global + route.middlewares, ..route }
}

/// The table built from the first `n` of the routes.
pub open spec fn built(routes: Seq<EndpointView>, global: Seq<usize>, n: nat) -> TableView
    decreases n,
{
    if n == 0 || n > routes.len() {
        empty_table()
    } else {
        registered(built(routes, global, (n - 1) as nat), effective(routes[n - 1], global))
    }
}

/// Whether the table takes route `j` when it is built from the routes in
/// their order.
pub open spec fn taken_at(routes: Seq<EndpointView>, global: Seq<usize>, j: int) -> bool {
    taken(built(routes, global, j as nat), effective(routes[j], global))
}

/// The number that route `j` gets where the table takes it: the number of
/// endpoints taken before it.
pub open spec fn number_of(routes: Seq<EndpointView>, global: Seq<usize>, j: int) -> int {
    built(routes, global, j as nat).endpoints.len() as int
}

/// Registering keeps the routes of a table distinct.
pub proof fn lemma_registered_distinct(t: TableView, e: EndpointView)
    requires
        distinct_routes(t.endpoints),
    ensures
        distinct_routes(registered(t, e).endpoints),
{
    let after = registered(t, e).endpoints;
    if taken(t, e) {
        assert forall|i: int, j: int| 0 <= i < j < after.len() implies !((#[trigger] after[i]).method
            == (#[trigger] after[j]).method && after[i].path == after[j].path) by {
            if j == t.endpoints.len() {
                assert(after[i] == t.endpoints[i]);
                assert(after[j] == e);
            } else {
                assert(after[i] == t.endpoints[i]);
                assert(after[j] == t.endpoints[j]);
            }
        }
    }
}

/// In a built table no two endpoints have the same method and the same
/// pattern.
pub proof fn lemma_built_distinct(routes: Seq<EndpointView>, global: Seq<usize>, n: nat)
    ensures
        distinct_routes(built(routes, global, n).endpoints),
    decreases n,
{
    if n == 0 || n > routes.len() {
    } else {
        lemma_built_distinct(routes, global, (n - 1) as nat);
        lemma_registered_distinct(
            built(routes, global, (n - 1) as nat),
            effective(routes[n - 1], global),
        );
    }
}

/// In a table of distinct routes, a request that resolves to an endpoint
/// whose pattern has no braces resolves to the one endpoint that was
/// registered for its method and its path.
pub proof fn lemma_found_the_literal(t: TableView, method: Method, path: Seq<char>, other: int)
    requires
        distinct_routes(t.endpoints),
        0 <= other < t.endpoints.len(),
        t.endpoints[other].method == method,
        t.endpoints[other].path == path,
    ensures
        found(t, method, path) matches Some((number, params)) ==> (literal(
            t.endpoints[number as int].path,
        ) ==> number == other),
{
    lemma_found_literal(t, method, path);
}

/// No index of a built table has seen more insertions than the table asked
/// for, and the table has no more endpoints than routes were registered.
pub proof fn lemma_built_counts(routes: Seq<EndpointView>, global: Seq<usize>, n: nat)
    requires
        n <= routes.len(),
    ensures
        built(routes, global, n).endpoints.len() <= n,
        logs_bounded(built(routes, global, n)),
    decreases n,
{
    if n > 0 {
        lemma_built_counts(routes, global, (n - 1) as nat);
    }
}

/// A route that the table takes stays: its endpoint keeps the number under
/// which its pattern went into the index of its method, and carries the
/// global middleware, in their order, in front of the route's own.
pub proof fn lemma_built_keeps(routes: Seq<EndpointView>, global: Seq<usize>, j: int, n: nat)
    requires
        0 <= j < n <= routes.len(),
        taken_at(routes, global, j),
    ensures
        number_of(routes, global, j) < built(routes, global, n).endpoints.len(),
        built(routes, global, n).endpoints[number_of(routes, global, j)] == effective(
            routes[j],
            global,
        ),
        built(routes, global, n).endpoints[number_of(routes, global, j)].middlewares == global
            + routes[j].middlewares,
        log_of(built(routes, global, n), routes[j].method).contains(
            (routes[j].path, number_of(routes, global, j) as usize),
        ),
    decreases n,
{
    let number = number_of(routes, global, j);
    let before = built(routes, global, (n - 1) as nat);
    let e = effective(routes[n - 1], global);
    let after = built(routes, global, n);
    assert(after == registered(before, e));
    lemma_built_counts(routes, global, (n - 1) as nat);
    if j == n - 1 {
        let log = log_of(after, e.method);
        assert(log == log_of(before, e.method).push((e.path, number as usize)));
        assert(log[log.len() - 1] == (e.path, number as usize));
    } else {
        lemma_built_keeps(routes, global, j, (n - 1) as nat);
        let m = routes[j].method;
        let entry = (routes[j].path, number as usize);
        let old_log = log_of(before, m);
        let at = choose|at: int| 0 <= at < old_log.len() && old_log[at] == entry;
        assert(log_of(after, m)[at] == entry);
    }
}

/// Every endpoint of a built table is a route that the table took, with
/// the global middleware in front of the route's own.
pub proof fn lemma_built_from(routes: Seq<EndpointView>, global: Seq<usize>, n: nat, number: int)
    requires
        n <= routes.len(),
        0 <= number < built(routes, global, n).endpoints.len(),
    ensures
        exists|j: int|
            0 <= j < n && #[trigger] taken_at(routes, global, j) && number_of(routes, global, j)
                == number && built(routes, global, n).endpoints[number] == effective(
                routes[j],
                global,
            ),
    decreases n,
{
    let before = built(routes, global, (n - 1) as nat);
    if number < before.endpoints.len() {
        lemma_built_from(routes, global, (n - 1) as nat, number);
        let j = choose|j: int|
            0 <= j < n - 1 && #[trigger] taken_at(routes, global, j) && number_of(
                routes,
                global,
                j,
            ) == number && before.endpoints[number] == effective(routes[j], global);
        assert(taken_at(routes, global, j));
    } else {
        assert(taken_at(routes, global, n - 1));
    }
}

/// A request resolves to at most one endpoint, and only to one that was
/// registered under the method of the request. Where the pattern of that
/// endpoint is plain, the path matches it and the parameters
/// are those that the path captures.
pub proof fn lemma_found_matches(t: TableView, method: Method, path: Seq<char>)
    ensures
        found(t, method, path) matches Some((number, params)) ==> number < t.endpoints.len()
            && t.endpoints[number as int].method == method && routable(method) && (plain(
            t.endpoints[number as int].path,
        ) ==> pattern_match(t.endpoints[number as int].path, path) == Some(params)),
{
}

/// A request that resolves to an endpoint whose pattern has no braces asks
/// for exactly that pattern, and captures nothing.
pub proof fn lemma_found_literal(t: TableView, method: Method, path: Seq<char>)
    ensures
        found(t, method, path) matches Some((number, params)) ==> (literal(
            t.endpoints[number as int].path,
        ) ==> path == t.endpoints[number as int].path && params == Seq::<
            (Seq<char>, Seq<char>),
        >::empty()),
{
    if let Some((number, params)) = found(t, method, path) {
        if literal(t.endpoints[number as int].path) {
            lemma_literal_pattern(t.endpoints[number as int].path, path);
        }
    }
}

/// A request that resolves to an endpoint whose pattern has one capture,
/// for a path that has `value` in the place of the capture, carries
/// exactly that value under the name of the capture.
pub proof fn lemma_found_capture(
    t: TableView,
    method: Method,
    path: Seq<char>,
    number: usize,
    params: Seq<(Seq<char>, Seq<char>)>,
    at: int,
    value: Seq<char>,
)
    requires
        found(t, method, path) == Some((number, params)),
        0 <= at < segments(t.endpoints[number as int].path).len(),
        capture_name(segments(t.endpoints[number as int].path)[at]) is Some,
        forall|i: int|
            0 <= i < segments(t.endpoints[number as int].path).len() && i != at ==> literal(
                #[trigger] segments(t.endpoints[number as int].path)[i],
            ),
        path == joined(segments(t.endpoints[number as int].path).update(at, value)),
        value.len() > 0,
        !value.contains('/'),
    ensures
        params == seq![
            (capture_name(segments(t.endpoints[number as int].path)[at])->0, value),
        ],
{
    lemma_single_capture(t.endpoints[number as int].path, path, at, value);
}

/// What the table answers when its index reports `hit`: the endpoint whose
/// number the index holds, where there is one and it is of the method.
pub open spec fn resolve(
    t: TableView,
    method: Method,
    hit: Option<(usize, Seq<(Seq<char>, Seq<char>)>)>,
) -> Option<(usize, Seq<(Seq<char>, Seq<char>)>)> {
    match hit {
        Some((number, params)) => if number < t.endpoints.len() && t.endpoints[number as int].method
            == method {
            hit
        } else {
            None
        },
        None => None,
    }
}

/// What the table makes of an answer for `path`: where the pattern of the
/// endpoint is plain, the answer stands only if the path
/// matches the pattern and captures just these parameters.
pub open spec fn confirmed(
    t: TableView,
    path: Seq<char>,
    answer: Option<(usize, Seq<(Seq<char>, Seq<char>)>)>,
) -> Option<(usize, Seq<(Seq<char>, Seq<char>)>)> {
    match answer {
        Some((number, params)) => if plain(t.endpoints[number as int].path) ==> pattern_match(
            t.endpoints[number as int].path,
            path,
        ) == Some(params) {
            answer
        } else {
            None
        },
        None => None,
    }
}

/// The endpoint and the parameters that a request of `method` for `path`
/// resolves to.
pub open spec fn found(t: TableView, method: Method, path: Seq<char>) -> Option<
    (usize, Seq<(Seq<char>, Seq<char>)>),
> {
    if routable(method) {
        confirmed(t, path, resolve(t, method, route_lookup(log_of(t, method), path)))
    } else {
        None
    }
}

/// Whether endpoint `i` is what a request for its own method and pattern
/// resolves to, with nothing captured.
pub open spec fn resolves_itself(t: TableView, i: int) -> bool {
    found(t, t.endpoints[i].method, t.endpoints[i].path) == Some(
        (i as usize, Seq::<(Seq<char>, Seq<char>)>::empty()),
    )
}

/// Every endpoint whose pattern has no braces is what a request for its
/// own method and pattern resolves to.
pub open spec fn literals_resolve(t: TableView) -> bool {
    forall|i: int|
        0 <= i < t.endpoints.len() && literal(t.endpoints[i].path) ==> #[trigger] resolves_itself(
            t,
            i,
        )
}

/// In a table whose literal routes resolve, a route without braces that
/// the table took is found by exactly the requests for its method and its
/// pattern, whatever else is registered: such a request resolves to the
/// endpoint of that route, under the number that the route got, and to no
/// other.
pub proof fn lemma_literal_route_resolves(
    routes: Seq<EndpointView>,
    global: Seq<usize>,
    j: int,
)
    requires
        0 <= j < routes.len(),
        taken_at(routes, global, j),
        literal(routes[j].path),
        literals_resolve(built(routes, global, routes.len())),
    ensures
        found(built(routes, global, routes.len()), routes[j].method, routes[j].path) == Some(
            (number_of(routes, global, j) as usize, Seq::<(Seq<char>, Seq<char>)>::empty()),
        ),
        built(routes, global, routes.len()).endpoints[number_of(routes, global, j)].handler
            == routes[j].handler,
{
    lemma_built_keeps(routes, global, j, routes.len());
    let t = built(routes, global, routes.len());
    assert(resolves_itself(t, number_of(routes, global, j)));
}

/// The route table of an application.
pub struct RouteTable {
    get: PathIndex<usize>,
    post: PathIndex<usize>,
    put: PathIndex<usize>,
    delete: PathIndex<usize>,
    patch: PathIndex<usize>,
    endpoints: Vec<Endpoint>,
    asked: usize,
}

impl View for RouteTable {
    type V = TableView;

    closed spec fn view(&self) -> TableView {
        TableView {
            get: index_log(self.get),
            post: index_log(self.post),
            put: index_log(self.put),
            delete: index_log(self.delete),
            patch: index_log(self.patch),
            endpoints: endpoints_view(self.endpoints@),
            asked: self.asked as nat,
        }
    }
}

/// No index has seen more insertions than the table asked for, and the
/// table asked for no more than the indexes can count.
pub open spec fn logs_bounded(t: TableView) -> bool {
    t.get.len() <= t.asked && t.post.len() <= t.asked && t.put.len() <= t.asked
        && t.delete.len() <= t.asked && t.patch.len() <= t.asked && t.asked <= MAX_INSERTIONS
        + 1
}

impl RouteTable {
    /// A table without routes.
    pub fn new() -> (t: RouteTable)
        ensures
            t@ == empty_table(),
    {
        let t = RouteTable {
            get: index_new(),
            post: index_new(),
            put: index_new(),
            delete: index_new(),
            patch: index_new(),
            endpoints: Vec::new(),
            asked: 0,
        };
        assert(endpoints_view(t.endpoints@) =~= Seq::empty());
        t
    }

    #[verifier::type_invariant]
    spec fn sound(&self) -> bool {
        logs_bounded(self@) && distinct_routes(self@.endpoints)
    }

    /// Tries to register an endpoint and says whether it was taken.
    ///
    /// A route that the index refuses, because it is malformed or collides
    /// with a route registered before, is left out; so is one whose method
    /// and pattern the table has already, one with more parameters than the
    /// index can take, one of a method that has no index, and any after
    /// the indexes were asked `MAX_INSERTIONS` times.
    pub fn register(&mut self, endpoint: Endpoint) -> (accepted: bool)
        ensures
            final(self)@ == registered(old(self)@, endpoint@),
            accepted == taken(old(self)@, endpoint@),
            distinct_routes(final(self)@.endpoints),
    {
        proof {
            use_type_invariant(&*self);
            lemma_registered_distinct(self@, endpoint@);
        }
        let number = self.endpoints.len();
        match endpoint.method {
            Method::Get | Method::Post | Method::Put | Method::Delete | Method::Patch => {},
            _ => {
                return false;
            },
        }
        if self.asked > MAX_INSERTIONS {
            return false;
        }
        if count_char(endpoint.path.as_str(), '{') > MAX_ROUTE_PARAMS {
            return false;
        }
        if self.holds(endpoint.method, endpoint.path.as_str()) {
            return false;
        }
        let mut table = RouteTable::new();
        std::mem::swap(&mut table, self);
        let (table, accepted) = table.offer(endpoint, number);
        *self = table;
        accepted
    }

    fn offer(self, endpoint: Endpoint, number: usize) -> (r: (RouteTable, bool))
        requires
            offered(self@, endpoint@),
            number == self@.endpoints.len(),
        ensures
            r.0@ == registered(self@, endpoint@),
            r.1 == taken(self@, endpoint@),
    {
        proof {
            use_type_invariant(&self);
            lemma_registered_distinct(self@, endpoint@);
        }
        let RouteTable { mut get, mut post, mut put, mut delete, mut patch, mut endpoints, asked } =
            self;
        let accepted = match endpoint.method {
            Method::Get => index_insert(&mut get, endpoint.path.as_str(), number),
            Method::Post => index_insert(&mut post, endpoint.path.as_str(), number),
            Method::Put => index_insert(&mut put, endpoint.path.as_str(), number),
            Method::Delete => index_insert(&mut delete, endpoint.path.as_str(), number),
            _ => index_insert(&mut patch, endpoint.path.as_str(), number),
        };
        if accepted {
            let ghost list = endpoints_view(endpoints@);
            endpoints.push(endpoint);
            assert(endpoints_view(endpoints@) =~= list.push(endpoint@));
        }
        (RouteTable { get, post, put, delete, patch, endpoints, asked: asked + 1 }, accepted)
    }

    /// Whether an endpoint of that method and pattern is registered.
    pub fn holds(&self, method: Method, path: &str) -> (r: bool)
        ensures
            r == has_route(self@.endpoints, method, path@),
    {
        let mut i: usize = 0;
        while i < self.endpoints.len()
            invariant
                i <= self.endpoints@.len(),
                forall|j: int|
                    0 <= j < i ==> !((#[trigger] self@.endpoints[j]).method == method
                        && self@.endpoints[j].path == path@),
            decreases self.endpoints@.len() - i,
        {
            if self.endpoints[i].method == method && str_eq(
                self.endpoints[i].path.as_str(),
                path,
            ) {
                assert(self@.endpoints[i as int].method == method && self@.endpoints[i as int].path
                    == path@);
                return true;
            }
            i = i + 1;
        }
        false
    }

    /// Asks the table for each of its routes without braces, and says
    /// whether each of them resolves to its own endpoint.
    pub fn literals_resolve(&self) -> (r: bool)
        ensures
            r == literals_resolve(self@),
    {
        let mut i: usize = 0;
        while i < self.endpoints.len()
            invariant
                i <= self.endpoints@.len(),
                forall|k: int|
                    0 <= k < i && literal(self@.endpoints[k].path) ==> #[trigger] resolves_itself(
                        self@,
                        k,
                    ),
            decreases self.endpoints@.len() - i,
        {
            let endpoint = &self.endpoints[i];
            assert(self@.endpoints[i as int] == endpoint@);
            if is_literal(endpoint.path.as_str()) {
                let resolved = match self.find(endpoint.method, endpoint.path.as_str()) {
                    Some((number, params)) => {
                        proof {
                            if params@.len() == 0 {
                                assert(pairs_view(params@) =~= Seq::empty());
                            } else {
                                assert(pairs_view(params@).len() > 0);
                            }
                        }
                        number == i && params.len() == 0
                    },
                    None => false,
                };
                if !resolved {
                    assert(literal(self@.endpoints[i as int].path));
                    assert(!resolves_itself(self@, i as int));
                    return false;
                }
            }
            i = i + 1;
        }
        true
    }

    /// The number of endpoints.
    pub fn len(&self) -> (n: usize)
        ensures
            n == self@.endpoints.len(),
    {
        self.endpoints.len()
    }

    /// The endpoint of that number, if there are that many.
    pub fn endpoint(&self, number: usize) -> (e: Option<&Endpoint>)
        ensures
            match e {
                Some(endpoint) => number < self@.endpoints.len() && endpoint@
                    == self@.endpoints[number as int],
                None => number >= self@.endpoints.len(),
            },
    {
        if number < self.endpoints.len() {
            Some(&self.endpoints[number])
        } else {
            None
        }
    }

    pub(crate) fn at(&self, number: usize) -> (e: &Endpoint)
        requires
            number < self@.endpoints.len(),
        ensures
            e@ == self@.endpoints[number as int],
    {
        &self.endpoints[number]
    }

    /// What the table answers when its index reports `hit`.
    pub fn resolve_hit(&self, method: Method, hit: Option<(usize, Vec<(String, String)>)>) -> (r:
        Option<(usize, Vec<(String, String)>)>)
        ensures
            match r {
                Some((number, params)) => hit == Some((number, params)) && resolve(
                    self@,
                    method,
                    Some((number, pairs_view(params@))),
                ) is Some,
                None => match hit {
                    Some((number, params)) => resolve(
                        self@,
                        method,
                        Some((number, pairs_view(params@))),
                    ) is None,
                    None => true,
                },
            },
    {
        match hit {
            Some((number, params)) => {
                if number < self.endpoints.len() && self.endpoints[number].method == method {
                    Some((number, params))
                } else {
                    None
                }
            },
            None => None,
        }
    }

    /// The endpoint that a request of `method` for `path` resolves to, by
    /// its number, and the parameters that the path captured. The index of
    /// the method is asked; its answer is taken only for an endpoint of the
    /// method and, where the pattern is plain, only if the path
    /// matches the pattern with just these parameters.
    pub fn find(&self, method: Method, path: &str) -> (r: Option<(usize, Vec<(String, String)>)>)
        ensures
            match r {
                Some((number, params)) => found(self@, method, path@) == Some(
                    (number, pairs_view(params@)),
                ),
                None => found(self@, method, path@) is None,
            },
    {
        let hit = match method {
            Method::Get => index_at(&self.get, path),
            Method::Post => index_at(&self.post, path),
            Method::Put => index_at(&self.put, path),
            Method::Delete => index_at(&self.delete, path),
            Method::Patch => index_at(&self.patch, path),
            _ => {
                return None;
            },
        };
        match self.resolve_hit(method, hit) {
            Some((number, params)) => {
                if confirms(self.endpoints[number].path.as_str(), path, &params) {
                    Some((number, params))
                } else {
                    None
                }
            },
            None => None,
        }
    }
}

} // verus!
